use gifstack::compose::{check_alpha, composite_frame_set, overlay_frame, FrameData};
use gifstack::error::{CompositeError, StructuralFault};

const OPAQUE_RED: [u8; 4] = [255, 0, 0, 255];
const OPAQUE_BLUE: [u8; 4] = [0, 0, 255, 255];
const TRANSPARENT: [u8; 4] = [0, 0, 0, 0];

fn frame(pixels: &[[u8; 4]], delay: u16) -> FrameData {
    let mut buffer = Vec::new();
    for p in pixels {
        buffer.extend_from_slice(p);
    }
    FrameData { buffer, delay }
}

#[test]
fn check_alpha_accepts_binary_alpha() {
    let buf = vec![1, 2, 3, 255, 4, 5, 6, 0];
    assert_eq!(check_alpha(&buf), Ok(()));
}

#[test]
fn check_alpha_rejects_partial_alpha() {
    let buf = vec![1, 2, 3, 255, 4, 5, 6, 128];
    assert_eq!(check_alpha(&buf), Err(CompositeError::UnsupportedAlphaError(128)));
}

#[test]
fn overlay_opaque_pixel_replaces_and_transparent_retains() {
    let base = vec![255, 0, 0, 255, 255, 0, 0, 255];
    let over = vec![0, 0, 255, 255, 9, 9, 9, 0];
    let out = overlay_frame(&base, &over).unwrap();
    assert_eq!(out, vec![0, 0, 255, 255, 255, 0, 0, 255]);
}

#[test]
fn overlay_rejects_partial_alpha() {
    let base = vec![255, 0, 0, 255];
    let over = vec![1, 2, 3, 77];
    assert_eq!(overlay_frame(&base, &over), Err(CompositeError::UnsupportedAlphaError(77)));
}

#[test]
fn composite_two_layers_top_wins_where_opaque() {
    let frames = vec![
        frame(&[OPAQUE_RED, OPAQUE_RED], 5),
        frame(&[OPAQUE_BLUE, TRANSPARENT], 5),
    ];
    let cf = composite_frame_set(&frames, 2, 1).unwrap();
    assert_eq!(cf.buffer, vec![0, 0, 255, 255, 255, 0, 0, 255]);
    assert_eq!(cf.delay, 5);
}

#[test]
fn composite_order_swap_changes_output() {
    let bottom_first = vec![
        frame(&[OPAQUE_RED], 3),
        frame(&[OPAQUE_BLUE], 3),
    ];
    let top_first = vec![
        frame(&[OPAQUE_BLUE], 3),
        frame(&[OPAQUE_RED], 3),
    ];
    let a = composite_frame_set(&bottom_first, 1, 1).unwrap();
    let b = composite_frame_set(&top_first, 1, 1).unwrap();
    assert_ne!(a.buffer, b.buffer);
    assert_eq!(a.buffer, OPAQUE_BLUE.to_vec());
    assert_eq!(b.buffer, OPAQUE_RED.to_vec());
}

#[test]
fn composite_transparent_top_passes_base_through() {
    let frames = vec![
        frame(&[OPAQUE_RED, OPAQUE_BLUE], 7),
        frame(&[TRANSPARENT, TRANSPARENT], 7),
    ];
    let cf = composite_frame_set(&frames, 2, 1).unwrap();
    assert_eq!(cf.buffer, frames[0].buffer);
    assert_eq!(cf.delay, 7);
}

#[test]
fn composite_is_deterministic() {
    let frames = vec![
        frame(&[OPAQUE_RED, TRANSPARENT], 4),
        frame(&[TRANSPARENT, OPAQUE_BLUE], 4),
    ];
    let a = composite_frame_set(&frames, 2, 1).unwrap();
    let b = composite_frame_set(&frames, 2, 1).unwrap();
    assert_eq!(a.buffer, b.buffer);
    assert_eq!(a.delay, b.delay);
}

#[test]
fn composite_rejects_alpha_128_in_top_frame() {
    let frames = vec![
        frame(&[OPAQUE_RED], 1),
        frame(&[[1, 2, 3, 128]], 1),
    ];
    assert_eq!(
        composite_frame_set(&frames, 1, 1),
        Err(CompositeError::UnsupportedAlphaError(128))
    );
}

#[test]
fn composite_rejects_alpha_128_in_bottom_frame() {
    let frames = vec![
        frame(&[[1, 2, 3, 128]], 1),
        frame(&[OPAQUE_RED], 1),
    ];
    assert_eq!(
        composite_frame_set(&frames, 1, 1),
        Err(CompositeError::UnsupportedAlphaError(128))
    );
}

#[test]
fn composite_rejects_divergent_durations() {
    let frames = vec![
        frame(&[OPAQUE_RED], 1),
        frame(&[OPAQUE_BLUE], 2),
    ];
    assert_eq!(
        composite_frame_set(&frames, 1, 1),
        Err(CompositeError::StructuralMismatchError(StructuralFault::DurationMismatch))
    );
}

#[test]
fn composite_rejects_undersized_buffer() {
    let frames = vec![
        frame(&[OPAQUE_RED, OPAQUE_RED], 1),
        frame(&[OPAQUE_BLUE], 1),
    ];
    assert_eq!(
        composite_frame_set(&frames, 2, 1),
        Err(CompositeError::StructuralMismatchError(StructuralFault::FrameGeometryMismatch))
    );
}
