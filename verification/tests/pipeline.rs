use gifstack::error::{CompositeError, StartupFault, StructuralFault};
use gifstack::pipeline::{classify_frame_set, composite_gifs, validate_geometry, FrameSetStatus};
use gifstack::compose::FrameData;

/// Builds one GIF byte stream with the given geometry and RGBA frames.
fn make_gif(width: u16, height: u16, frames: &[(Vec<u8>, u16)]) -> Vec<u8> {
    let mut encoder = gif::Encoder::new(Vec::new(), width, height, &[]).unwrap();
    encoder.set_repeat(gif::Repeat::Infinite).unwrap();
    for (pixels, delay) in frames {
        let mut buf = pixels.clone();
        let mut frame = gif::Frame::from_rgba(width, height, &mut buf);
        frame.delay = *delay;
        encoder.write_frame(&frame).unwrap();
    }
    encoder.into_inner().unwrap()
}

/// Decodes every frame of a GIF byte stream back to (RGBA pixels, delay),
/// checking on the way that the stream carries the infinite-repeat policy.
fn decode_gif(bytes: &[u8]) -> (u16, u16, Vec<(Vec<u8>, u16)>) {
    let mut options = gif::DecodeOptions::new();
    options.set_color_output(gif::ColorOutput::RGBA);
    let mut decoder = options.read_info(std::io::Cursor::new(bytes)).unwrap();
    assert_eq!(decoder.repeat(), gif::Repeat::Infinite);
    let (w, h) = (decoder.width(), decoder.height());
    let mut frames = Vec::new();
    while let Some(frame) = decoder.read_next_frame().unwrap() {
        frames.push((frame.buffer.to_vec(), frame.delay));
    }
    (w, h, frames)
}

const RED: [u8; 4] = [255, 0, 0, 255];
const CLEAR: [u8; 4] = [0, 0, 0, 0];

fn pixels(ps: &[[u8; 4]]) -> Vec<u8> {
    let mut v = Vec::new();
    for p in ps {
        v.extend_from_slice(p);
    }
    v
}

#[test]
fn end_to_end_transparent_top_keeps_bottom_pixels_and_duration() {
    let bottom = make_gif(2, 1, &[(pixels(&[RED, RED]), 10)]);
    let top = make_gif(2, 1, &[(pixels(&[CLEAR, CLEAR]), 10)]);
    let out = composite_gifs(&vec![bottom, top]).unwrap();
    let (w, h, frames) = decode_gif(&out);
    assert_eq!((w, h), (2, 1));
    assert_eq!(frames.len(), 1);
    assert_eq!(frames[0].0, pixels(&[RED, RED]));
    assert_eq!(frames[0].1, 10);
}

#[test]
fn end_to_end_is_deterministic() {
    let bottom = make_gif(2, 2, &[
        (pixels(&[RED, CLEAR, CLEAR, RED]), 5),
        (pixels(&[CLEAR, RED, RED, CLEAR]), 5),
    ]);
    let top = make_gif(2, 2, &[
        (pixels(&[[0, 255, 0, 255], CLEAR, CLEAR, CLEAR]), 5),
        (pixels(&[CLEAR, CLEAR, CLEAR, [0, 0, 255, 255]]), 5),
    ]);
    let inputs = vec![bottom, top];
    let first = composite_gifs(&inputs).unwrap();
    let second = composite_gifs(&inputs).unwrap();
    assert_eq!(first, second);
}

#[test]
fn end_to_end_order_swap_changes_output() {
    let red = make_gif(1, 1, &[(pixels(&[RED]), 5)]);
    let green = make_gif(1, 1, &[(pixels(&[[0, 255, 0, 255]]), 5)]);
    let red_under = composite_gifs(&vec![red.clone(), green.clone()]).unwrap();
    let green_under = composite_gifs(&vec![green, red]).unwrap();
    let (_, _, top_green) = decode_gif(&red_under);
    let (_, _, top_red) = decode_gif(&green_under);
    assert_ne!(top_green[0].0, top_red[0].0);
    assert_eq!(top_green[0].0, pixels(&[[0, 255, 0, 255]]));
    assert_eq!(top_red[0].0, pixels(&[RED]));
}

#[test]
fn mismatched_widths_fail_at_startup() {
    let wide = make_gif(2, 1, &[(pixels(&[RED, RED]), 1)]);
    let narrow = make_gif(1, 1, &[(pixels(&[RED]), 1)]);
    assert_eq!(
        composite_gifs(&vec![wide, narrow]),
        Err(CompositeError::StartupError(StartupFault::WidthMismatch))
    );
}

#[test]
fn mismatched_heights_fail_at_startup() {
    let tall = make_gif(1, 2, &[(pixels(&[RED, RED]), 1)]);
    let short = make_gif(1, 1, &[(pixels(&[RED]), 1)]);
    assert_eq!(
        composite_gifs(&vec![tall, short]),
        Err(CompositeError::StartupError(StartupFault::HeightMismatch))
    );
}

#[test]
fn mismatched_frame_counts_fail_mid_pipeline() {
    let p = pixels(&[RED]);
    let three = make_gif(1, 1, &[(p.clone(), 1), (p.clone(), 1), (p.clone(), 1)]);
    let two = make_gif(1, 1, &[(p.clone(), 1), (p.clone(), 1)]);
    assert_eq!(
        composite_gifs(&vec![three, two]),
        Err(CompositeError::StructuralMismatchError(StructuralFault::FrameCountMismatch))
    );
}

#[test]
fn mismatched_durations_fail_mid_pipeline() {
    let slow = make_gif(1, 1, &[(pixels(&[RED]), 10)]);
    let fast = make_gif(1, 1, &[(pixels(&[RED]), 20)]);
    assert_eq!(
        composite_gifs(&vec![slow, fast]),
        Err(CompositeError::StructuralMismatchError(StructuralFault::DurationMismatch))
    );
}

#[test]
fn fewer_than_two_inputs_are_rejected() {
    let one = make_gif(1, 1, &[(pixels(&[RED]), 1)]);
    assert_eq!(
        composite_gifs(&vec![one]),
        Err(CompositeError::StartupError(StartupFault::TooFewInputs))
    );
    assert_eq!(
        composite_gifs(&Vec::<Vec<u8>>::new()),
        Err(CompositeError::StartupError(StartupFault::TooFewInputs))
    );
}

#[test]
fn unparsable_header_is_reported_with_its_position() {
    let good = make_gif(1, 1, &[(pixels(&[RED]), 1)]);
    let garbage = vec![1, 2, 3, 4, 5];
    assert_eq!(
        composite_gifs(&vec![good, garbage]),
        Err(CompositeError::StartupError(StartupFault::UnreadableInput(1)))
    );
}

#[test]
fn validate_geometry_reports_width_before_height() {
    assert_eq!(validate_geometry(&vec![2, 2], &vec![1, 1]), Ok((2, 1)));
    assert_eq!(
        validate_geometry(&vec![2, 1], &vec![1, 1]),
        Err(CompositeError::StartupError(StartupFault::WidthMismatch))
    );
    assert_eq!(
        validate_geometry(&vec![2, 2], &vec![1, 3]),
        Err(CompositeError::StartupError(StartupFault::HeightMismatch))
    );
    assert_eq!(
        validate_geometry(&vec![2, 1], &vec![1, 3]),
        Err(CompositeError::StartupError(StartupFault::WidthMismatch))
    );
}

#[test]
fn classify_frame_set_sorts_the_three_transitions() {
    let f = |d: u16| FrameData { buffer: vec![0, 0, 0, 255], delay: d };
    match classify_frame_set(vec![None, None]) {
        FrameSetStatus::Exhausted => {},
        _ => panic!("expected Exhausted"),
    }
    match classify_frame_set(vec![Some(f(1)), None]) {
        FrameSetStatus::Mismatch => {},
        _ => panic!("expected Mismatch"),
    }
    match classify_frame_set(vec![Some(f(1)), Some(f(2))]) {
        FrameSetStatus::Ready(frames) => {
            assert_eq!(frames.len(), 2);
            assert_eq!(frames[0].delay, 1);
            assert_eq!(frames[1].delay, 2);
        },
        _ => panic!("expected Ready"),
    }
}
