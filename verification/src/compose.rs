//! The frame compositor: merges the frames of one iteration, bottom-to-top,
//! under the binary-alpha paste rule. Partial transparency is unsupported by
//! design: any alpha value other than fully opaque or fully transparent is a
//! fatal error, never blended.

use vstd::prelude::*;
use vstd::std_specs::cmp::PartialEqSpec;
use crate::error::{CompositeError, StructuralFault};
use crate::uniform::get_all_same;

verus! {

/// One decoded frame: a row-major RGBA pixel buffer (four bytes per pixel)
/// and a display duration in the format's native time unit.
#[derive(Debug, PartialEq, Eq)]
pub struct FrameData {
    pub buffer: Vec<u8>,
    pub delay: u16,
}

/// Every pixel's alpha channel is either fully transparent or fully opaque.
pub open spec fn binary_alpha(buf: Seq<u8>) -> bool {
    forall|p: int|
        0 <= p < buf.len() / 4 ==> ((#[trigger] buf[4 * p + 3]) == 0u8 || buf[4 * p + 3] == 0xFFu8)
}

/// The binary-alpha paste of `over` onto `base`: where `over`'s pixel is
/// fully opaque it replaces the whole pixel, elsewhere the `base` pixel is
/// retained unchanged.
pub open spec fn pasted(base: Seq<u8>, over: Seq<u8>) -> Seq<u8> {
    Seq::new(
        base.len(),
        |i: int| if over[4 * (i / 4) + 3] == 0xFFu8 {
            over[i]
        } else {
            base[i]
        },
    )
}

/// The bottom-to-top composite of a stack of equally sized pixel buffers: the
/// bottom buffer is the initial value and every later buffer is pasted atop
/// the running result, in the order supplied.
pub open spec fn composite_of(bufs: Seq<Seq<u8>>) -> Seq<u8>
    decreases bufs.len(),
{
    if bufs.len() == 0 {
        Seq::empty()
    } else if bufs.len() == 1 {
        bufs[0]
    } else {
        pasted(composite_of(bufs.drop_last()), bufs.last())
    }
}

/// The pixel buffers of a frame set, in layer order.
pub open spec fn buffers_of(frames: Seq<FrameData>) -> Seq<Seq<u8>> {
    frames.map_values(|f: FrameData| f.buffer@)
}

/// All frames of one iteration carry one display duration.
pub open spec fn delays_uniform(frames: Seq<FrameData>) -> bool {
    forall|i: int| 0 <= i < frames.len() ==> (#[trigger] frames[i].delay) == frames[0].delay
}

/// Every frame's buffer holds exactly width x height four-byte pixels.
pub open spec fn sizes_ok(frames: Seq<FrameData>, width: u16, height: u16) -> bool {
    forall|i: int|
        0 <= i < frames.len() ==> (#[trigger] frames[i].buffer@.len()) == width * height * 4
}

/// Every frame's alpha channel is binary.
pub open spec fn all_binary(frames: Seq<FrameData>) -> bool {
    forall|i: int| 0 <= i < frames.len() ==> binary_alpha(#[trigger] frames[i].buffer@)
}

proof fn lemma_pixel_byte_div(p: int, i: int)
    requires
        0 <= p,
        4 * p <= i < 4 * p + 4,
    ensures
        i / 4 == p,
{
    assert(i / 4 == p) by (nonlinear_arith)
        requires
            0 <= p,
            4 * p <= i < 4 * p + 4,
    ;
}

/// Confirms that `buf` holds only fully opaque or fully transparent pixels;
/// otherwise reports an unsupported alpha value found in it.
pub fn check_alpha(buf: &Vec<u8>) -> (r: Result<(), CompositeError>)
    requires
        buf@.len() % 4 == 0,
    ensures
        match r {
            Ok(()) => binary_alpha(buf@),
            Err(e) => !binary_alpha(buf@) && (e matches CompositeError::UnsupportedAlphaError(a)
                && a != 0u8 && a != 0xFFu8 && exists|p: int|
                0 <= p < buf@.len() / 4 && (#[trigger] buf@[4 * p + 3]) == a),
        },
{
    proof {
        assert(4 * (buf@.len() / 4) == buf@.len());
    }
    let n = buf.len() / 4;
    let mut p: usize = 0;
    while p < n
        invariant
            buf@.len() % 4 == 0,
            4 * n == buf@.len(),
            0 <= p <= n,
            forall|q: int|
                0 <= q < p ==> ((#[trigger] buf@[4 * q + 3]) == 0u8 || buf@[4 * q + 3] == 0xFFu8),
        decreases n - p,
    {
        proof {
            assert(buf.len() == buf@.len());
            assert(4 * (p as int) + 3 < buf@.len());
        }
        let a = buf[4 * p + 3];
        if a != 0u8 && a != 0xFF {
            return Err(CompositeError::UnsupportedAlphaError(a));
        }
        p = p + 1;
    }
    Ok(())
}

/// Pastes `over` onto `base` pixel by pixel: a fully opaque overlay pixel
/// replaces the buffer pixel, a fully transparent one leaves it unchanged,
/// and any other alpha value is a fatal error.
pub fn overlay_frame(base: &Vec<u8>, over: &Vec<u8>) -> (r: Result<Vec<u8>, CompositeError>)
    requires
        base@.len() == over@.len(),
        base@.len() % 4 == 0,
    ensures
        match r {
            Ok(out) => binary_alpha(over@) && out@ == pasted(base@, over@),
            Err(e) => !binary_alpha(over@) && (e matches CompositeError::UnsupportedAlphaError(a)
                && a != 0u8 && a != 0xFFu8 && exists|p: int|
                0 <= p < over@.len() / 4 && (#[trigger] over@[4 * p + 3]) == a),
        },
{
    proof {
        assert(4 * (over@.len() / 4) == over@.len());
    }
    let n = over.len() / 4;
    let mut out: Vec<u8> = Vec::new();
    let mut p: usize = 0;
    while p < n
        invariant
            base@.len() == over@.len(),
            base@.len() % 4 == 0,
            4 * n == over@.len(),
            0 <= p <= n,
            out@.len() == 4 * p,
            forall|q: int|
                0 <= q < p ==> ((#[trigger] over@[4 * q + 3]) == 0u8 || over@[4 * q + 3] == 0xFFu8),
            forall|i: int| 0 <= i < 4 * p ==> (#[trigger] out@[i]) == pasted(base@, over@)[i],
        decreases n - p,
    {
        proof {
            assert(over.len() == over@.len());
            assert(4 * (p as int) + 3 < over@.len());
        }
        let a = over[4 * p + 3];
        if a == 0xFF {
            out.push(over[4 * p]);
            out.push(over[4 * p + 1]);
            out.push(over[4 * p + 2]);
            out.push(over[4 * p + 3]);
        } else if a == 0u8 {
            out.push(base[4 * p]);
            out.push(base[4 * p + 1]);
            out.push(base[4 * p + 2]);
            out.push(base[4 * p + 3]);
        } else {
            return Err(CompositeError::UnsupportedAlphaError(a));
        }
        proof {
            assert forall|i: int| 4 * p <= i < 4 * p + 4 implies (#[trigger] out@[i]) == pasted(
                base@,
                over@,
            )[i] by {
                lemma_pixel_byte_div(p as int, i);
            }
        }
        p = p + 1;
    }
    proof {
        assert(out@ =~= pasted(base@, over@));
    }
    Ok(out)
}

proof fn lemma_composite_extend(bufs: Seq<Seq<u8>>, k: int)
    requires
        1 <= k < bufs.len(),
    ensures
        composite_of(bufs.subrange(0, k + 1)) == pasted(
            composite_of(bufs.subrange(0, k)),
            bufs[k],
        ),
{
    let s = bufs.subrange(0, k + 1);
    assert(s.drop_last() =~= bufs.subrange(0, k));
    assert(s.last() == bufs[k]);
}

/// Merges a frame set into one composite frame: confirms the shared duration,
/// the shared geometry and the binary-alpha restriction, then folds the
/// buffers bottom-to-top under the paste rule. The composite carries the
/// single duration shared by all input frames.
pub fn composite_frame_set(frames: &Vec<FrameData>, width: u16, height: u16) -> (r: Result<
    FrameData,
    CompositeError,
>)
    requires
        frames@.len() >= 1,
    ensures
        match r {
            Ok(cf) => delays_uniform(frames@) && sizes_ok(frames@, width, height) && all_binary(
                frames@,
            ) && cf.buffer@ == composite_of(buffers_of(frames@)) && cf.buffer@.len() == width
                * height * 4 && cf.delay == frames@[0].delay,
            Err(e) => match e {
                CompositeError::StructuralMismatchError(
                    StructuralFault::DurationMismatch,
                ) => !delays_uniform(frames@),
                CompositeError::StructuralMismatchError(
                    StructuralFault::FrameGeometryMismatch,
                ) => delays_uniform(frames@) && !sizes_ok(frames@, width, height),
                CompositeError::UnsupportedAlphaError(a) => delays_uniform(frames@) && sizes_ok(
                    frames@,
                    width,
                    height,
                ) && !all_binary(frames@) && a != 0u8 && a != 0xFFu8 && exists|i: int, p: int|
                    0 <= i < frames@.len() && 0 <= p < frames@[i].buffer@.len() / 4 && (
                    #[trigger] frames@[i].buffer@[4 * p + 3]) == a,
                _ => false,
            },
        },
{
    // Duration agreement across the frame set.
    let mut delays: Vec<u16> = Vec::new();
    let mut i: usize = 0;
    while i < frames.len()
        invariant
            0 <= i <= frames@.len(),
            delays@.len() == i,
            forall|j: int| 0 <= j < i ==> (#[trigger] delays@[j]) == frames@[j].delay,
        decreases frames@.len() - i,
    {
        delays.push(frames[i].delay);
        i = i + 1;
    }
    let delay = match get_all_same(&delays) {
        Some(d) => {
            proof {
                assert forall|j: int| 0 <= j < frames@.len() implies (#[trigger] frames@[j].delay)
                    == frames@[0].delay by {
                    if j >= 1 {
                        assert(delays@[j].eq_spec(&delays@[0]));
                    }
                }
            }
            d
        },
        None => {
            proof {
                let j = choose|j: int|
                    1 <= j < delays@.len() && !(#[trigger] delays@[j].eq_spec(&delays@[0]));
                assert(frames@[j].delay != frames@[0].delay);
            }
            return Err(CompositeError::StructuralMismatchError(StructuralFault::DurationMismatch));
        },
    };
    // Geometry agreement: every buffer covers the shared width x height.
    proof {
        assert((width as int) * (height as int) <= 65535 * 65535) by (nonlinear_arith)
            requires
                width <= 65535,
                height <= 65535,
        ;
    }
    let target: u64 = (width as u64) * (height as u64) * 4;
    let mut k: usize = 0;
    while k < frames.len()
        invariant
            frames@.len() >= 1,
            0 <= k <= frames@.len(),
            target == width * height * 4,
            delays_uniform(frames@),
            delay == frames@[0].delay,
            forall|j: int|
                0 <= j < k ==> (#[trigger] frames@[j].buffer@.len()) == width * height * 4,
        decreases frames@.len() - k,
    {
        if frames[k].buffer.len() as u64 != target {
            proof {
                assert(frames@[k as int].buffer@.len() != width * height * 4);
            }
            return Err(
                CompositeError::StructuralMismatchError(StructuralFault::FrameGeometryMismatch),
            );
        }
        k = k + 1;
    }
    // The bottom frame is the initial buffer; its alpha channel is held to
    // the same binary restriction as every overlay.
    match check_alpha(&frames[0].buffer) {
        Ok(()) => {},
        Err(e) => {
            return Err(e);
        },
    }
    let mut buffer: Vec<u8> = Vec::new();
    let mut b: usize = 0;
    while b < frames[0].buffer.len()
        invariant
            frames@.len() >= 1,
            0 <= b <= frames@[0].buffer@.len(),
            buffer@.len() == b,
            delays_uniform(frames@),
            sizes_ok(frames@, width, height),
            delay == frames@[0].delay,
            binary_alpha(frames@[0].buffer@),
            forall|j: int| 0 <= j < b ==> (#[trigger] buffer@[j]) == frames@[0].buffer@[j],
        decreases frames@[0].buffer@.len() - b,
    {
        buffer.push(frames[0].buffer[b]);
        b = b + 1;
    }
    proof {
        assert(buffer@ =~= frames@[0].buffer@);
        assert(buffers_of(frames@).subrange(0, 1) =~= seq![frames@[0].buffer@]);
        assert(buffer@ == composite_of(buffers_of(frames@).subrange(0, 1)));
    }
    let mut k: usize = 1;
    while k < frames.len()
        invariant
            1 <= k <= frames@.len(),
            delays_uniform(frames@),
            sizes_ok(frames@, width, height),
            delay == frames@[0].delay,
            forall|j: int| 0 <= j < k ==> binary_alpha(#[trigger] frames@[j].buffer@),
            buffer@ == composite_of(buffers_of(frames@).subrange(0, k as int)),
            buffer@.len() == width * height * 4,
        decreases frames@.len() - k,
    {
        proof {
            assert(frames@[k as int].buffer@.len() == width * height * 4);
            assert(buffer@.len() % 4 == 0) by (nonlinear_arith)
                requires
                    buffer@.len() == (width as int) * (height as int) * 4,
            ;
        }
        match overlay_frame(&buffer, &frames[k].buffer) {
            Ok(next) => {
                proof {
                    lemma_composite_extend(buffers_of(frames@), k as int);
                }
                buffer = next;
            },
            Err(e) => {
                return Err(e);
            },
        }
        k = k + 1;
    }
    proof {
        assert(buffers_of(frames@).subrange(0, frames@.len() as int) =~= buffers_of(frames@));
    }
    Ok(FrameData { buffer, delay })
}

/// Determinism of compositing: the composite frame is a function of the frame
/// set alone, so any two results that the compositor's contract admits for
/// one frame set agree byte for byte and in duration.
pub proof fn lemma_composite_deterministic(frames: Seq<FrameData>, c1: FrameData, c2: FrameData)
    requires
        frames.len() >= 1,
        c1.buffer@ == composite_of(buffers_of(frames)),
        c1.delay == frames[0].delay,
        c2.buffer@ == composite_of(buffers_of(frames)),
        c2.delay == frames[0].delay,
    ensures
        c1.buffer@ == c2.buffer@,
        c1.delay == c2.delay,
{
}

/// The composite of a stack of equally long buffers is as long as each of
/// them.
pub proof fn lemma_composite_len(bufs: Seq<Seq<u8>>, len: int)
    requires
        bufs.len() >= 1,
        forall|i: int| 0 <= i < bufs.len() ==> (#[trigger] bufs[i].len()) == len,
    ensures
        composite_of(bufs).len() == len,
    decreases bufs.len(),
{
    if bufs.len() > 1 {
        assert forall|i: int| 0 <= i < bufs.drop_last().len() implies (#[trigger] bufs.drop_last()[i].len())
            == len by {
            assert(bufs.drop_last()[i] == bufs[i]);
        }
        lemma_composite_len(bufs.drop_last(), len);
    }
}

/// Order sensitivity: where a stack's two top layers both hold a fully opaque
/// pixel at one coordinate and those pixels differ, swapping the two layers
/// changes the composite (the top layer wins).
pub proof fn lemma_order_sensitive(s: Seq<Seq<u8>>, p: int, j: int)
    requires
        s.len() >= 2,
        forall|i: int| 0 <= i < s.len() ==> (#[trigger] s[i].len()) == s[0].len(),
        s[0].len() % 4 == 0,
        0 <= p < s[0].len() / 4,
        s[s.len() - 2][4 * p + 3] == 0xFFu8,
        s[s.len() - 1][4 * p + 3] == 0xFFu8,
        4 * p <= j < 4 * p + 4,
        s[s.len() - 2][j] != s[s.len() - 1][j],
    ensures
        composite_of(s) != composite_of(
            s.update(s.len() - 2, s[s.len() - 1]).update(s.len() - 1, s[s.len() - 2]),
        ),
{
    let n = s.len() as int;
    let len = s[0].len() as int;
    let a = s[n - 2];
    let b = s[n - 1];
    let t = s.update(n - 2, b).update(n - 1, a);
    assert(4 * (len / 4) == len);
    assert forall|i: int| 0 <= i < t.len() implies (#[trigger] t[i].len()) == len by {
        if i != n - 2 && i != n - 1 {
            assert(t[i] == s[i]);
        }
    }
    assert forall|i: int| 0 <= i < s.drop_last().len() implies (#[trigger] s.drop_last()[i].len())
        == len by {
        assert(s.drop_last()[i] == s[i]);
    }
    assert forall|i: int| 0 <= i < t.drop_last().len() implies (#[trigger] t.drop_last()[i].len())
        == len by {
        assert(t.drop_last()[i] == t[i]);
    }
    lemma_composite_len(s.drop_last(), len);
    lemma_composite_len(t.drop_last(), len);
    lemma_pixel_byte_div(p, j);
    assert(s.last() == b);
    assert(t.last() == a);
    assert(composite_of(s) == pasted(composite_of(s.drop_last()), b));
    assert(composite_of(t) == pasted(composite_of(t.drop_last()), a));
    assert(composite_of(s)[j] == b[j]);
    assert(composite_of(t)[j] == a[j]);
}

/// Idempotence of pass-through: pasting a fully transparent layer atop a base
/// leaves the composite pixel-identical to the base.
pub proof fn lemma_transparent_passthrough(base: Seq<u8>, top: Seq<u8>)
    requires
        base.len() == top.len(),
        base.len() % 4 == 0,
        forall|p: int| 0 <= p < top.len() / 4 ==> (#[trigger] top[4 * p + 3]) == 0u8,
    ensures
        composite_of(seq![base, top]) == base,
{
    assert(4 * (base.len() / 4) == base.len());
    let s = seq![base, top];
    assert(s.drop_last() =~= seq![base]);
    assert(composite_of(seq![base]) == base);
    assert(composite_of(s) == pasted(base, top));
    assert forall|i: int| 0 <= i < base.len() implies pasted(base, top)[i] == base[i] by {
        lemma_pixel_byte_div(i / 4, i);
        assert(0 <= i / 4 < top.len() / 4);
        assert(top[4 * (i / 4) + 3] == 0u8);
    }
    assert(pasted(base, top) =~= base);
}

} // verus!
