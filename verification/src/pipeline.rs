//! The pipeline driver: opens every input as a layer, enforces the startup
//! geometry agreement, then pulls one frame from every layer per iteration in
//! lockstep, composites the frame set, and streams the result to the encoder
//! until every layer is exhausted in the same iteration.
//!
//! The driver's contract is stated over the decode and encode names of the
//! codec boundary: what a byte stream parses and decodes to, and what byte
//! stream a sequence of composite frames serializes to. On success the output
//! is pinned as a function of the inputs alone; each error names its cause.

use vstd::prelude::*;
use vstd::std_specs::cmp::PartialEqSpec;
use crate::codec::{
    enc_config, enc_frames, finish_encoder, gif_clean, gif_frames, gif_output, gif_parses,
    gif_size, layer_clean, layer_frames, layer_height, layer_width, new_encoder, open_layer,
    pull_frame, rgba_quantized, set_infinite_repeat, write_rgba_frame, LayerDecoder,
};
use crate::compose::{binary_alpha, buffers_of, composite_frame_set, composite_of, FrameData};
use crate::error::{CompositeError, StartupFault, StructuralFault};
use crate::uniform::get_all_same;

verus! {

/// All values agree with the first (vacuously true of an empty sequence).
pub open spec fn all_same_u16(vals: Seq<u16>) -> bool {
    forall|i: int| 0 <= i < vals.len() ==> (#[trigger] vals[i]) == vals[0]
}

/// Every input's header parses.
pub open spec fn all_parse(inputs: Seq<Vec<u8>>) -> bool {
    forall|i: int| 0 <= i < inputs.len() ==> gif_parses(#[trigger] inputs[i]@)
}

/// Every input's frame data ends cleanly.
pub open spec fn all_clean(inputs: Seq<Vec<u8>>) -> bool {
    forall|i: int| 0 <= i < inputs.len() ==> gif_clean(#[trigger] inputs[i]@)
}

/// The widths the inputs' headers declare, in input order.
pub open spec fn widths_model(inputs: Seq<Vec<u8>>) -> Seq<u16> {
    Seq::new(inputs.len(), |i: int| gif_size(inputs[i]@).0)
}

/// The heights the inputs' headers declare, in input order.
pub open spec fn heights_model(inputs: Seq<Vec<u8>>) -> Seq<u16> {
    Seq::new(inputs.len(), |i: int| gif_size(inputs[i]@).1)
}

/// Startup validation succeeds: at least two inputs, every header parses, and
/// the declared widths and heights each agree.
pub open spec fn startup_ok(inputs: Seq<Vec<u8>>) -> bool {
    inputs.len() >= 2 && all_parse(inputs) && all_same_u16(widths_model(inputs)) && all_same_u16(
        heights_model(inputs),
    )
}

/// The frame (pixel bytes, duration) input `i` decodes to at iteration `k`.
pub open spec fn frame_at(inputs: Seq<Vec<u8>>, i: int, k: int) -> (Seq<u8>, u16) {
    gif_frames(inputs[i]@)[k]
}

/// Every input still has a frame at iteration `k`.
pub open spec fn has_iteration(inputs: Seq<Vec<u8>>, k: int) -> bool {
    forall|i: int| 0 <= i < inputs.len() ==> gif_frames(#[trigger] inputs[i]@).len() > k
}

/// Iteration `k`'s frames all carry one duration.
pub open spec fn delays_uniform_at(inputs: Seq<Vec<u8>>, k: int) -> bool {
    forall|i: int|
        0 <= i < inputs.len() ==> (#[trigger] frame_at(inputs, i, k)).1 == frame_at(inputs, 0, k).1
}

/// Iteration `k`'s frames all cover the shared geometry.
pub open spec fn sized_at(inputs: Seq<Vec<u8>>, k: int) -> bool {
    forall|i: int|
        0 <= i < inputs.len() ==> (#[trigger] frame_at(inputs, i, k)).0.len() == gif_size(
            inputs[0]@,
        ).0 * gif_size(inputs[0]@).1 * 4
}

/// Iteration `k`'s frames all have binary alpha channels.
pub open spec fn binary_at(inputs: Seq<Vec<u8>>, k: int) -> bool {
    forall|i: int| 0 <= i < inputs.len() ==> binary_alpha((#[trigger] frame_at(inputs, i, k)).0)
}

/// Iteration `k` exists and raises no fatal condition.
pub open spec fn iteration_clean(inputs: Seq<Vec<u8>>, k: int) -> bool {
    has_iteration(inputs, k) && delays_uniform_at(inputs, k) && sized_at(inputs, k) && binary_at(
        inputs,
        k,
    )
}

/// The first `k` iterations all exist and raise no fatal condition.
pub open spec fn clean_upto(inputs: Seq<Vec<u8>>, k: int) -> bool {
    forall|t: int| 0 <= t < k ==> #[trigger] iteration_clean(inputs, t)
}

/// Every input decodes to as many frames as the first.
pub open spec fn frame_counts_equal(inputs: Seq<Vec<u8>>) -> bool {
    forall|i: int|
        0 <= i < inputs.len() ==> gif_frames(#[trigger] inputs[i]@).len() == gif_frames(
            inputs[0]@,
        ).len()
}

/// Iteration `k`'s pixel buffers, in layer order.
pub open spec fn iteration_buffers(inputs: Seq<Vec<u8>>, k: int) -> Seq<Seq<u8>> {
    Seq::new(inputs.len(), |i: int| frame_at(inputs, i, k).0)
}

/// The composite frame iteration `k` emits: the layered buffers' composite as
/// the encoder stores it, with the iteration's shared duration.
pub open spec fn out_frame_at(inputs: Seq<Vec<u8>>, k: int) -> (Seq<u8>, u16) {
    (rgba_quantized(composite_of(iteration_buffers(inputs, k))), frame_at(inputs, 0, k).1)
}

/// The first `k` composite frames, in emission order.
pub open spec fn out_frames_upto(inputs: Seq<Vec<u8>>, k: int) -> Seq<(Seq<u8>, u16)> {
    Seq::new(k as nat, |t: int| out_frame_at(inputs, t))
}

/// The alpha byte of pixel `p` of input `i`'s frame at iteration `k`.
pub open spec fn alpha_value_at(inputs: Seq<Vec<u8>>, k: int, i: int, p: int) -> u8 {
    frame_at(inputs, i, k).0[4 * p + 3]
}

/// What a successful run returns: the inputs pass startup validation, agree
/// in frame count, every iteration is structurally compatible with binary
/// alpha, every stream ends cleanly, and the output is the serialization, at
/// the shared geometry and with the infinite-repeat policy, of the per
/// iteration composites carrying the shared durations.
pub open spec fn pipeline_success(inputs: Seq<Vec<u8>>, out: Seq<u8>) -> bool {
    let count = gif_frames(inputs[0]@).len() as int;
    startup_ok(inputs) && frame_counts_equal(inputs) && all_clean(inputs) && clean_upto(
        inputs,
        count,
    ) && out == gif_output(
        gif_size(inputs[0]@).0,
        gif_size(inputs[0]@).1,
        true,
        out_frames_upto(inputs, count),
    )
}

/// Determinism of the pipeline: a successful run's output is a function of
/// the input streams alone, so two successful runs over the same inputs yield
/// byte-identical output.
pub proof fn lemma_pipeline_deterministic(inputs: Seq<Vec<u8>>, out1: Seq<u8>, out2: Seq<u8>)
    requires
        pipeline_success(inputs, out1),
        pipeline_success(inputs, out2),
    ensures
        out1 == out2,
{
}

/// Startup validation: the layers' widths must all agree and their heights
/// must all agree; any disagreement is fatal before a single frame is pulled,
/// and the system never reconciles mismatched geometry.
pub fn validate_geometry(widths: &Vec<u16>, heights: &Vec<u16>) -> (r: Result<
    (u16, u16),
    CompositeError,
>)
    requires
        widths@.len() == heights@.len(),
    ensures
        match r {
            Ok(wh) => widths@.len() >= 1 && all_same_u16(widths@) && all_same_u16(heights@)
                && wh.0 == widths@[0] && wh.1 == heights@[0],
            Err(e) => match e {
                CompositeError::StartupError(StartupFault::WidthMismatch) => widths@.len() == 0
                    || !all_same_u16(widths@),
                CompositeError::StartupError(StartupFault::HeightMismatch) => widths@.len() >= 1
                    && all_same_u16(widths@) && !all_same_u16(heights@),
                _ => false,
            },
        },
{
    let width = match get_all_same(widths) {
        Some(w) => {
            proof {
                assert forall|i: int| 0 <= i < widths@.len() implies (#[trigger] widths@[i])
                    == widths@[0] by {
                    if i >= 1 {
                        assert(widths@[i].eq_spec(&widths@[0]));
                    }
                }
            }
            w
        },
        None => {
            proof {
                if widths@.len() >= 1 {
                    let i = choose|i: int|
                        1 <= i < widths@.len() && !(#[trigger] widths@[i].eq_spec(&widths@[0]));
                    assert(widths@[i] != widths@[0]);
                }
            }
            return Err(CompositeError::StartupError(StartupFault::WidthMismatch));
        },
    };
    let height = match get_all_same(heights) {
        Some(h) => {
            proof {
                assert forall|i: int| 0 <= i < heights@.len() implies (#[trigger] heights@[i])
                    == heights@[0] by {
                    if i >= 1 {
                        assert(heights@[i].eq_spec(&heights@[0]));
                    }
                }
            }
            h
        },
        None => {
            proof {
                let i = choose|i: int|
                    1 <= i < heights@.len() && !(#[trigger] heights@[i].eq_spec(&heights@[0]));
                assert(heights@[i] != heights@[0]);
            }
            return Err(CompositeError::StartupError(StartupFault::HeightMismatch));
        },
    };
    Ok((width, height))
}

/// The outcome of pulling one frame (or an end-of-stream signal) from every
/// layer of one iteration.
pub enum FrameSetStatus {
    /// Every layer signalled end of stream: the pipeline is done.
    Exhausted,
    /// Some but not all layers signalled end of stream: the frame counts
    /// disagree, which is fatal.
    Mismatch,
    /// Every layer yielded a frame: the frame set, in layer order.
    Ready(Vec<FrameData>),
}

/// Every layer signalled end of stream.
pub open spec fn all_none(pulls: Seq<Option<FrameData>>) -> bool {
    forall|i: int| 0 <= i < pulls.len() ==> (#[trigger] pulls[i]) is None
}

/// Every layer yielded a frame.
pub open spec fn all_some(pulls: Seq<Option<FrameData>>) -> bool {
    forall|i: int| 0 <= i < pulls.len() ==> (#[trigger] pulls[i]) is Some
}

/// Sorts one iteration's pulls into the driver's transition: all layers
/// exhausted, a fatal partial exhaustion, or a complete frame set in layer
/// order.
pub fn classify_frame_set(pulls: Vec<Option<FrameData>>) -> (r: FrameSetStatus)
    ensures
        match r {
            FrameSetStatus::Exhausted => all_none(pulls@),
            FrameSetStatus::Mismatch => !all_none(pulls@) && !all_some(pulls@),
            FrameSetStatus::Ready(frames) => !all_none(pulls@) && all_some(pulls@) && frames@.len()
                == pulls@.len() && (forall|i: int|
                0 <= i < pulls@.len() ==> (#[trigger] pulls@[i]) == Some(frames@[i])),
        },
{
    let mut any_some = false;
    let mut any_none = false;
    let mut i: usize = 0;
    while i < pulls.len()
        invariant
            0 <= i <= pulls@.len(),
            any_some <==> (exists|j: int| 0 <= j < i && (#[trigger] pulls@[j]) is Some),
            any_none <==> (exists|j: int| 0 <= j < i && (#[trigger] pulls@[j]) is None),
        decreases pulls@.len() - i,
    {
        match &pulls[i] {
            Some(_) => {
                any_some = true;
            },
            None => {
                any_none = true;
            },
        }
        i = i + 1;
    }
    if !any_some {
        return FrameSetStatus::Exhausted;
    }
    if any_none {
        return FrameSetStatus::Mismatch;
    }
    let ghost orig = pulls@;
    let mut rest = pulls;
    let mut frames: Vec<FrameData> = Vec::new();
    while rest.len() > 0
        invariant
            all_some(orig),
            frames@.len() + rest@.len() == orig.len(),
            rest@ == orig.skip(frames@.len() as int),
            forall|j: int| 0 <= j < frames@.len() ==> (#[trigger] orig[j]) == Some(frames@[j]),
        decreases rest@.len(),
    {
        let next = rest.remove(0);
        proof {
            assert(orig[frames@.len() as int] == next);
            assert(rest@ =~= orig.skip(frames@.len() as int + 1));
        }
        match next {
            Some(f) => {
                frames.push(f);
            },
            None => {
                proof {
                    assert(orig[frames@.len() as int] is Some);
                }
                // Unreachable: every pull was a frame.
                return FrameSetStatus::Mismatch;
            },
        }
    }
    FrameSetStatus::Ready(frames)
}

/// Runs the whole pipeline over the given input streams: decode, validate,
/// composite and encode, frame set by frame set, with an infinite-repeat
/// output policy. Fewer than two inputs are rejected outright; every fatal
/// condition is surfaced as a structured error and nothing is retried. On
/// success the output bytes are the serialization of the iterations'
/// composites, a function of the inputs alone.
pub fn composite_gifs(inputs: &Vec<Vec<u8>>) -> (r: Result<Vec<u8>, CompositeError>)
    ensures
        inputs@.len() < 2 <==> r == Err::<Vec<u8>, CompositeError>(
            CompositeError::StartupError(StartupFault::TooFewInputs),
        ),
        inputs@.len() >= 2 && !all_parse(inputs@) ==> r matches Err(
            CompositeError::StartupError(StartupFault::UnreadableInput(_)),
        ),
        inputs@.len() >= 2 && all_parse(inputs@) && !all_same_u16(widths_model(inputs@)) ==> r
            == Err::<Vec<u8>, CompositeError>(
            CompositeError::StartupError(StartupFault::WidthMismatch),
        ),
        inputs@.len() >= 2 && all_parse(inputs@) && all_same_u16(widths_model(inputs@))
            && !all_same_u16(heights_model(inputs@)) ==> r == Err::<Vec<u8>, CompositeError>(
            CompositeError::StartupError(StartupFault::HeightMismatch),
        ),
        match r {
            Ok(out) => pipeline_success(inputs@, out@),
            Err(e) => match e {
                CompositeError::StartupError(fault) => match fault {
                    StartupFault::TooFewInputs => inputs@.len() < 2,
                    StartupFault::UnreadableInput(i) => inputs@.len() >= 2 && i < inputs@.len()
                        && !gif_parses(inputs@[i as int]@) && (forall|j: int|
                        0 <= j < i ==> gif_parses(#[trigger] inputs@[j]@)),
                    StartupFault::WidthMismatch => inputs@.len() >= 2 && all_parse(inputs@)
                        && !all_same_u16(widths_model(inputs@)),
                    StartupFault::HeightMismatch => inputs@.len() >= 2 && all_parse(inputs@)
                        && all_same_u16(widths_model(inputs@)) && !all_same_u16(
                        heights_model(inputs@),
                    ),
                },
                CompositeError::StructuralMismatchError(fault) => match fault {
                    StructuralFault::FrameCountMismatch => startup_ok(inputs@)
                        && !frame_counts_equal(inputs@),
                    StructuralFault::DurationMismatch => startup_ok(inputs@) && (exists|k: int|
                        0 <= k && has_iteration(inputs@, k) && !(#[trigger] delays_uniform_at(
                            inputs@,
                            k,
                        ))),
                    StructuralFault::FrameGeometryMismatch => startup_ok(inputs@) && (exists|
                        k: int,
                    |
                        0 <= k && has_iteration(inputs@, k) && !(#[trigger] sized_at(inputs@, k))),
                },
                CompositeError::UnsupportedAlphaError(a) => startup_ok(inputs@) && a != 0u8 && a
                    != 0xFFu8 && (exists|k: int, i: int, p: int|
                    0 <= k && 0 <= i < inputs@.len() && gif_frames(inputs@[i]@).len() > k && 0 <= p
                        < frame_at(inputs@, i, k).0.len() / 4 && #[trigger] alpha_value_at(
                        inputs@,
                        k,
                        i,
                        p,
                    ) == a),
                CompositeError::DecodeError(i) => startup_ok(inputs@) && i < inputs@.len()
                    && !gif_clean(inputs@[i as int]@),
                CompositeError::EncodingError => startup_ok(inputs@),
            },
        },
{
    if inputs.len() < 2 {
        return Err(CompositeError::StartupError(StartupFault::TooFewInputs));
    }
    let n = inputs.len();
    let mut layers: Vec<LayerDecoder> = Vec::new();
    let mut widths: Vec<u16> = Vec::new();
    let mut heights: Vec<u16> = Vec::new();
    let mut i: usize = 0;
    while i < n
        invariant
            inputs@.len() >= 2,
            n == inputs@.len(),
            0 <= i <= n,
            layers@.len() == i,
            widths@.len() == i,
            heights@.len() == i,
            forall|j: int| 0 <= j < i ==> gif_parses(#[trigger] inputs@[j]@),
            forall|j: int| 0 <= j < i ==> (#[trigger] widths@[j]) == gif_size(inputs@[j]@).0,
            forall|j: int| 0 <= j < i ==> (#[trigger] heights@[j]) == gif_size(inputs@[j]@).1,
            forall|j: int|
                0 <= j < i ==> layer_frames(#[trigger] layers@[j]) == gif_frames(inputs@[j]@),
            forall|j: int|
                0 <= j < i ==> layer_clean(#[trigger] layers@[j]) == gif_clean(inputs@[j]@),
        decreases n - i,
    {
        match open_layer(&inputs[i]) {
            Ok(d) => {
                widths.push(layer_width(&d));
                heights.push(layer_height(&d));
                layers.push(d);
            },
            Err(_) => {
                return Err(CompositeError::StartupError(StartupFault::UnreadableInput(i)));
            },
        }
        i = i + 1;
    }
    proof {
        assert(widths@ =~= widths_model(inputs@));
        assert(heights@ =~= heights_model(inputs@));
    }
    let (width, height) = match validate_geometry(&widths, &heights) {
        Ok(wh) => wh,
        Err(e) => {
            return Err(e);
        },
    };
    let mut encoder = match new_encoder(width, height) {
        Ok(e) => e,
        Err(_) => {
            return Err(CompositeError::EncodingError);
        },
    };
    match set_infinite_repeat(&mut encoder) {
        Ok(()) => {},
        Err(_) => {
            return Err(CompositeError::EncodingError);
        },
    }
    let ghost mut k: int = 0;
    let mut done = false;
    while !done
        invariant
            inputs@.len() >= 2,
            n == inputs@.len(),
            startup_ok(inputs@),
            width == gif_size(inputs@[0]@).0,
            height == gif_size(inputs@[0]@).1,
            layers@.len() == n,
            0 <= k,
            clean_upto(inputs@, k),
            forall|j: int| 0 <= j < n ==> gif_frames(#[trigger] inputs@[j]@).len() >= k,
            !done ==> (forall|j: int|
                0 <= j < n ==> layer_frames(#[trigger] layers@[j]) == gif_frames(
                    inputs@[j]@,
                ).skip(k)),
            !done ==> (forall|j: int|
                0 <= j < n ==> layer_clean(#[trigger] layers@[j]) == gif_clean(inputs@[j]@)),
            enc_config(encoder) == (width, height, true),
            enc_frames(encoder) == out_frames_upto(inputs@, k),
            done ==> (forall|j: int|
                0 <= j < n ==> gif_frames(#[trigger] inputs@[j]@).len() == k) && all_clean(
                inputs@,
            ),
        decreases
                gif_frames(inputs@[0]@).len() - k,
                (if done {
                    0int
                } else {
                    1int
                }),
    {
        let mut advanced: Vec<LayerDecoder> = Vec::new();
        let mut pulls: Vec<Option<FrameData>> = Vec::new();
        while layers.len() > 0
            invariant
                inputs@.len() >= 2,
                n == inputs@.len(),
                startup_ok(inputs@),
                0 <= k,
                advanced@.len() + layers@.len() == n,
                pulls@.len() == advanced@.len(),
                forall|j: int| 0 <= j < n ==> gif_frames(#[trigger] inputs@[j]@).len() >= k,
                forall|j: int|
                    0 <= j < layers@.len() ==> layer_frames(#[trigger] layers@[j]) == gif_frames(
                        inputs@[advanced@.len() + j]@,
                    ).skip(k),
                forall|j: int|
                    0 <= j < layers@.len() ==> layer_clean(#[trigger] layers@[j]) == gif_clean(
                        inputs@[advanced@.len() + j]@,
                    ),
                forall|j: int|
                    0 <= j < pulls@.len() ==> ((#[trigger] pulls@[j]) matches Some(f) ==> (
                    gif_frames(inputs@[j]@).len() > k && f.buffer@ == frame_at(inputs@, j, k).0
                        && f.delay == frame_at(inputs@, j, k).1 && layer_frames(advanced@[j])
                        == gif_frames(inputs@[j]@).skip(k + 1) && layer_clean(advanced@[j])
                        == gif_clean(inputs@[j]@))),
                forall|j: int|
                    0 <= j < pulls@.len() ==> ((#[trigger] pulls@[j]) is None ==> (gif_frames(
                        inputs@[j]@,
                    ).len() == k && gif_clean(inputs@[j]@))),
            decreases layers@.len(),
        {
            let ghost idx = advanced@.len() as int;
            let mut d = layers.remove(0);
            proof {
                assert(layer_frames(d) == gif_frames(inputs@[idx]@).skip(k));
                assert forall|j: int| 0 <= j < layers@.len() implies layer_frames(
                    #[trigger] layers@[j],
                ) == gif_frames(inputs@[idx + 1 + j]@).skip(k) by {}
            }
            match pull_frame(&mut d) {
                Ok(of) => {
                    proof {
                        let model = gif_frames(inputs@[idx]@);
                        if of is Some {
                            assert(model.skip(k).len() >= 1);
                            assert(model.skip(k)[0] == model[k]);
                            assert(model.skip(k).drop_first() =~= model.skip(k + 1));
                        } else {
                            assert(model.skip(k).len() == 0);
                            assert(model.len() == k);
                        }
                    }
                    advanced.push(d);
                    pulls.push(of);
                },
                Err(_) => {
                    proof {
                        assert(gif_frames(inputs@[idx]@).skip(k).len() == 0);
                        assert(!gif_clean(inputs@[idx]@));
                    }
                    return Err(CompositeError::DecodeError(pulls.len()));
                },
            }
        }
        layers = advanced;
        let ghost pv = pulls@;
        match classify_frame_set(pulls) {
            FrameSetStatus::Exhausted => {
                proof {
                    assert forall|j: int| 0 <= j < n implies gif_frames(
                        #[trigger] inputs@[j]@,
                    ).len() == k && gif_clean(inputs@[j]@) by {
                        assert(pv[j] is None);
                    }
                }
                done = true;
            },
            FrameSetStatus::Mismatch => {
                proof {
                    let js = choose|j: int| 0 <= j < pv.len() && !((#[trigger] pv[j]) is None);
                    let jn = choose|j: int| 0 <= j < pv.len() && !((#[trigger] pv[j]) is Some);
                    assert(pv[js] is Some);
                    assert(pv[jn] is None);
                    assert(gif_frames(inputs@[js]@).len() > k);
                    assert(gif_frames(inputs@[jn]@).len() == k);
                    assert(!frame_counts_equal(inputs@));
                }
                return Err(
                    CompositeError::StructuralMismatchError(StructuralFault::FrameCountMismatch),
                );
            },
            FrameSetStatus::Ready(frames) => {
                proof {
                    assert forall|j: int| 0 <= j < n implies (#[trigger] frames@[j]).buffer@
                        == frame_at(inputs@, j, k).0 && frames@[j].delay == frame_at(
                        inputs@,
                        j,
                        k,
                    ).1 && gif_frames(inputs@[j]@).len() > k by {
                        assert(pv[j] == Some(frames@[j]));
                    }
                    assert forall|j: int| 0 <= j < inputs@.len() implies gif_frames(
                        #[trigger] inputs@[j]@,
                    ).len() > k by {
                        assert(pv[j] == Some(frames@[j]));
                    }
                    assert(has_iteration(inputs@, k));
                }
                let cf = match composite_frame_set(&frames, width, height) {
                    Ok(cf) => cf,
                    Err(e) => {
                        proof {
                            match e {
                                CompositeError::StructuralMismatchError(
                                    StructuralFault::DurationMismatch,
                                ) => {
                                    let j = choose|j: int|
                                        0 <= j < frames@.len() && (#[trigger] frames@[j].delay)
                                            != frames@[0].delay;
                                    assert(frame_at(inputs@, j, k).1 != frame_at(inputs@, 0, k).1);
                                    assert(!delays_uniform_at(inputs@, k));
                                },
                                CompositeError::StructuralMismatchError(
                                    StructuralFault::FrameGeometryMismatch,
                                ) => {
                                    let j = choose|j: int|
                                        0 <= j < frames@.len() && (
                                        #[trigger] frames@[j].buffer@.len()) != width * height * 4;
                                    assert(frame_at(inputs@, j, k).0.len() != width * height * 4);
                                    assert(!sized_at(inputs@, k));
                                },
                                CompositeError::UnsupportedAlphaError(a) => {
                                    let (j, p) = choose|j: int, p: int|
                                        0 <= j < frames@.len() && 0 <= p < frames@[j].buffer@.len()
                                            / 4 && (#[trigger] frames@[j].buffer@[4 * p + 3]) == a;
                                    assert(alpha_value_at(inputs@, k, j, p) == a);
                                },
                                _ => {},
                            }
                        }
                        return Err(e);
                    },
                };
                match write_rgba_frame(&mut encoder, width, height, cf.buffer, cf.delay) {
                    Ok(()) => {},
                    Err(_) => {
                        return Err(CompositeError::EncodingError);
                    },
                }
                proof {
                    assert(buffers_of(frames@) =~= iteration_buffers(inputs@, k));
                    assert(enc_frames(encoder) =~= out_frames_upto(inputs@, k + 1));
                    assert forall|j: int| 0 <= j < inputs@.len() implies (#[trigger] frame_at(
                        inputs@,
                        j,
                        k,
                    )).1 == frame_at(inputs@, 0, k).1 by {
                        assert(frames@[j].delay == frames@[0].delay);
                    }
                    assert forall|j: int| 0 <= j < inputs@.len() implies (#[trigger] frame_at(
                        inputs@,
                        j,
                        k,
                    )).0.len() == gif_size(inputs@[0]@).0 * gif_size(inputs@[0]@).1 * 4 by {
                        assert(frames@[j].buffer@.len() == width * height * 4);
                    }
                    assert forall|j: int| 0 <= j < inputs@.len() implies binary_alpha(
                        (#[trigger] frame_at(inputs@, j, k)).0,
                    ) by {
                        assert(binary_alpha(frames@[j].buffer@));
                    }
                    assert(iteration_clean(inputs@, k));
                    k = k + 1;
                    assert(clean_upto(inputs@, k));
                    assert forall|j: int| 0 <= j < n implies layer_frames(#[trigger] layers@[j])
                        == gif_frames(inputs@[j]@).skip(k) && layer_clean(layers@[j]) == gif_clean(
                        inputs@[j]@,
                    ) by {
                        assert(pv[j] == Some(frames@[j]));
                    }
                }
            },
        }
    }
    proof {
        assert(out_frames_upto(inputs@, k) =~= out_frames_upto(
            inputs@,
            gif_frames(inputs@[0]@).len() as int,
        ));
    }
    match finish_encoder(encoder) {
        Ok(bytes) => {
            proof {
                assert(frame_counts_equal(inputs@));
                assert(pipeline_success(inputs@, bytes@));
            }
            Ok(bytes)
        },
        Err(_) => Err(CompositeError::EncodingError),
    }
}

} // verus!
