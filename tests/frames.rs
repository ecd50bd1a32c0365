use ascii_video::{
    decode_step, frame_is_renderable, frame_to_ascii, rgb_to_rgba, rgba_to_ascii, DecodeAction, DecodeEvent, DecodePhase,
    FramePipeline, GridShape, PipelineError, ScalingError, GRID_COLUMNS,
};

fn gray_frame(width: u32, height: u32, level: u8) -> Vec<u8> {
    vec![level; (width * height * 3) as usize]
}

#[test]
fn grid_shape_counts_lines_and_bytes() {
    assert_eq!(GridShape::of_text("ab\ncde\nf"), GridShape { max_line_len: 3, line_count: 3 });
    assert_eq!(GridShape::of_text("ab\ncde\n"), GridShape { max_line_len: 3, line_count: 2 });
    assert_eq!(GridShape::of_text("ab\r\ncd\r\n"), GridShape { max_line_len: 2, line_count: 2 });
    assert_eq!(GridShape::of_text("a\n\nb"), GridShape { max_line_len: 1, line_count: 3 });
    // the pound sign takes two bytes
    assert_eq!(GridShape::of_text("..\n\u{a3}\u{a3}"), GridShape { max_line_len: 4, line_count: 2 });
}

#[test]
fn empty_text_has_no_lines() {
    assert_eq!(GridShape::of_text(""), GridShape { max_line_len: 0, line_count: 0 });
    assert_eq!(GridShape::of_text("\n"), GridShape { max_line_len: 0, line_count: 1 });
}

#[test]
fn rgba_conversion_copies_samples() {
    // 2x1 frame, stride 8 (two bytes of padding)
    let data = vec![1, 2, 3, 4, 5, 6, 0, 0];
    assert_eq!(rgb_to_rgba(&data, 2, 1, 8), vec![1, 2, 3, 255, 4, 5, 6, 255]);
}

#[test]
fn rgba_conversion_honours_stride() {
    // 1x2 frame whose rows start every 4 bytes
    let data = vec![10, 20, 30, 99, 40, 50, 60, 99];
    assert_eq!(rgb_to_rgba(&data, 1, 2, 4), vec![10, 20, 30, 255, 40, 50, 60, 255]);
}

#[test]
fn short_buffer_leaves_pixels_transparent() {
    // 2x2 frame with stride 6, but only the first row and one byte more
    let data = vec![1, 2, 3, 4, 5, 6, 7];
    let rgba = rgb_to_rgba(&data, 2, 2, 6);
    assert_eq!(rgba.len(), 16);
    assert_eq!(rgba[0..8], [1, 2, 3, 255, 4, 5, 6, 255]);
    assert_eq!(rgba[8..16], [0; 8]);
    assert_eq!(rgb_to_rgba(&[], 3, 3, 9), vec![0; 36]);
}

#[test]
fn rendering_is_deterministic() {
    let frame = gray_frame(64, 64, 128);
    let a = frame_to_ascii(&frame, 64, 64, 64 * 3);
    let b = frame_to_ascii(&frame.clone(), 64, 64, 64 * 3);
    assert_eq!(a, b);
    assert!(!a.is_empty());
}

#[test]
fn solid_gray_frames_give_equal_grids_and_canvases() {
    let mut pipeline = FramePipeline::new();
    let mut layouts = Vec::new();
    for _ in 0..2 {
        let frame = gray_frame(64, 64, 128);
        let text = frame_to_ascii(&frame, 64, 64, 64 * 3);
        assert!(text.lines().all(|l| l.chars().count() == GRID_COLUMNS as usize));
        let shape = GridShape::of_text(&text);
        assert_eq!(shape.line_count, 50);
        assert!(shape.max_line_len >= GRID_COLUMNS as usize);
        layouts.push(pipeline.plan_frame(shape).unwrap());
    }
    assert_eq!(layouts[0].file_name, "frame_0000.png");
    assert_eq!(layouts[1].file_name, "frame_0001.png");
    assert_eq!(layouts[0].layout, layouts[1].layout);
}

#[test]
fn rendering_uses_the_pixels() {
    // left half black, right half white: dark takes the densest symbol,
    // bright the sparsest
    let mut frame = gray_frame(64, 64, 0);
    for y in 0..64usize {
        for x in 32..64usize {
            for c in 0..3 {
                frame[y * 192 + x * 3 + c] = 255;
            }
        }
    }
    let text = frame_to_ascii(&frame, 64, 64, 192);
    for line in text.lines() {
        assert!(line.starts_with('#'));
        assert!(!line.ends_with('#'));
    }
    assert_ne!(text, frame_to_ascii(&gray_frame(64, 64, 200), 64, 64, 192));
}

#[test]
fn black_frame_takes_the_densest_symbol() {
    let text = frame_to_ascii(&gray_frame(64, 64, 0), 64, 64, 192);
    assert!(text.lines().all(|l| l.chars().all(|c| c == '#')));
    assert_eq!(text.len(), 50 * 100 + 49);
}

#[test]
fn rendered_text_is_a_grid() {
    let mut frame = gray_frame(40, 30, 0);
    for (i, b) in frame.iter_mut().enumerate() {
        *b = (i * 7 % 256) as u8;
    }
    let text = frame_to_ascii(&frame, 40, 30, 120);
    assert!(!text.ends_with('\n'));
    let symbols = ['.', ',', '-', '*', '\u{a3}', '$', '#'];
    for line in text.split('\n') {
        assert_eq!(line.chars().count(), 100);
        assert!(line.chars().all(|c| symbols.contains(&c)));
    }
}

#[test]
fn rgba_and_rgb_rendering_agree() {
    let frame = gray_frame(16, 8, 90);
    let rgba = rgb_to_rgba(&frame, 16, 8, 48);
    assert_eq!(rgba_to_ascii(rgba, 16, 8), frame_to_ascii(&frame, 16, 8, 48));
}

#[test]
fn renderable_frame_sizes() {
    assert!(frame_is_renderable(64, 64));
    assert!(frame_is_renderable(7680, 4320));
    assert!(!frame_is_renderable(0, 64));
    assert!(!frame_is_renderable(64, 0));
    // more pixels per grid cell than the sampler's sums hold
    assert!(!frame_is_renderable(300_000, 5_700));
    assert!(frame_is_renderable(20_000, 10_000));
    assert!(!frame_is_renderable(20_001, 10_000));
    // more than a million rows
    assert!(frame_is_renderable(1, 20_000));
    assert!(!frame_is_renderable(1, 20_001));
}

#[test]
fn baseline_latches_on_first_frame() {
    let mut pipeline = FramePipeline::new();
    assert_eq!(pipeline.baseline(), None);
    let first = GridShape { max_line_len: 100, line_count: 50 };
    pipeline.plan_frame(first).unwrap();
    for shape in [(130, 50), (80, 20), (100, 50), (7, 3)] {
        let plan = pipeline
            .plan_frame(GridShape { max_line_len: shape.0, line_count: shape.1 })
            .unwrap();
        assert_eq!(plan.layout.width_scale.num, 100);
        assert_eq!(plan.layout.height_scale.num, 50);
        assert_eq!(pipeline.baseline(), Some(first));
    }
    assert_eq!(pipeline.frames_done(), 5);
}

#[test]
fn degenerate_frame_fails_and_changes_nothing() {
    let mut pipeline = FramePipeline::new();
    let empty = GridShape::of_text("");
    assert_eq!(pipeline.plan_frame(empty).unwrap_err(), ScalingError::InvalidGridShape);
    assert_eq!(pipeline.baseline(), None);
    assert_eq!(pipeline.frames_done(), 0);
    pipeline.plan_frame(GridShape { max_line_len: 10, line_count: 5 }).unwrap();
    let blank = GridShape::of_text("\n\n");
    assert_eq!(pipeline.plan_frame(blank).unwrap_err(), ScalingError::InvalidGridShape);
    assert_eq!(pipeline.frames_done(), 1);
    assert_eq!(ascii_video::scaling_failure(ScalingError::InvalidGridShape), PipelineError::ScalingError);
}

#[test]
fn frame_indices_count_from_zero() {
    let mut pipeline = FramePipeline::new();
    for i in 0..12u64 {
        let plan = pipeline.plan_frame(GridShape { max_line_len: 3, line_count: 2 }).unwrap();
        assert_eq!(plan.index, i);
        assert_eq!(plan.file_name, format!("frame_{:04}.png", i));
    }
}

#[test]
fn decode_loop_reads_decodes_and_drains() {
    assert_eq!(decode_step(DecodePhase::ReadingPackets, DecodeEvent::Packet { selected: true }), (DecodePhase::Decoding, DecodeAction::SendPacket));
    assert_eq!(decode_step(DecodePhase::ReadingPackets, DecodeEvent::Packet { selected: false }), (DecodePhase::ReadingPackets, DecodeAction::ReadPacket));
    assert_eq!(decode_step(DecodePhase::Decoding, DecodeEvent::FrameReceived), (DecodePhase::Decoding, DecodeAction::ProcessFrame));
    assert_eq!(decode_step(DecodePhase::Decoding, DecodeEvent::NoFrame), (DecodePhase::ReadingPackets, DecodeAction::ReadPacket));
    assert_eq!(decode_step(DecodePhase::ReadingPackets, DecodeEvent::InputExhausted), (DecodePhase::Draining, DecodeAction::SendEof));
    assert_eq!(decode_step(DecodePhase::Draining, DecodeEvent::FrameReceived), (DecodePhase::Draining, DecodeAction::ProcessFrame));
    assert_eq!(decode_step(DecodePhase::Draining, DecodeEvent::NoFrame), (DecodePhase::Done, DecodeAction::Finish));
    assert_eq!(decode_step(DecodePhase::Done, DecodeEvent::FrameReceived), (DecodePhase::Done, DecodeAction::Finish));
}
