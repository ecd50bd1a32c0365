use ascii_video::{line_top, GridShape, Ratio, ScalingError, ScalingState};

fn shape(max_line_len: usize, line_count: usize) -> GridShape {
    GridShape { max_line_len, line_count }
}

#[test]
fn identity_scale_reproduces_first_canvas() {
    let state = ScalingState::new(shape(100, 50)).unwrap();
    let first = state.layout(shape(100, 50)).unwrap();
    assert_eq!(first.width_scale, Ratio { num: 100, den: 100 });
    assert_eq!(first.height_scale, Ratio { num: 50, den: 50 });
    assert_eq!(first.font_scale.num, first.font_scale.den);
    assert_eq!(first.canvas_width, 400);
    assert_eq!(first.canvas_height, 500);
    let again = state.layout(shape(100, 50)).unwrap();
    assert_eq!(again, first);
}

#[test]
fn zero_lines_is_a_scaling_error() {
    assert_eq!(ScalingState::new(shape(100, 0)), Err(ScalingError::InvalidGridShape));
    let state = ScalingState::new(shape(100, 50)).unwrap();
    assert_eq!(state.layout(shape(100, 0)), Err(ScalingError::InvalidGridShape));
}

#[test]
fn empty_longest_line_is_a_scaling_error() {
    assert_eq!(ScalingState::new(shape(0, 50)), Err(ScalingError::InvalidGridShape));
    let state = ScalingState::new(shape(100, 50)).unwrap();
    assert_eq!(state.layout(shape(0, 3)), Err(ScalingError::InvalidGridShape));
    assert_eq!(state.layout(shape(0, 0)), Err(ScalingError::InvalidGridShape));
}

#[test]
fn baseline_accessors_report_first_shape() {
    let state = ScalingState::new(shape(120, 40)).unwrap();
    assert_eq!(state.base_row_char_count(), 120);
    assert_eq!(state.base_line_count(), 40);
}

#[test]
fn longer_lines_get_a_smaller_width_scale() {
    let state = ScalingState::new(shape(100, 50)).unwrap();
    let first = state.layout(shape(100, 50)).unwrap();
    let wider = state.layout(shape(130, 50)).unwrap();
    // 100/130 < 100/100
    assert_eq!(wider.width_scale, Ratio { num: 100, den: 130 });
    assert!(wider.width_scale.num * first.width_scale.den < first.width_scale.num * wider.width_scale.den);
    // the height scale (one) is now the larger, so the font keeps its size
    assert_eq!(wider.font_scale, Ratio { num: 50, den: 50 });
    // in exact arithmetic the canvas is 4 pixels per baseline column whatever the frame
    assert_eq!(wider.canvas_width, first.canvas_width);
    assert_eq!(wider.canvas_height, first.canvas_height);
}

#[test]
fn shorter_grid_enlarges_the_font() {
    let state = ScalingState::new(shape(100, 50)).unwrap();
    let layout = state.layout(shape(80, 25)).unwrap();
    assert_eq!(layout.width_scale, Ratio { num: 100, den: 80 });
    assert_eq!(layout.height_scale, Ratio { num: 50, den: 25 });
    assert_eq!(layout.font_scale, Ratio { num: 50, den: 25 });
    assert_eq!(layout.canvas_width, 400);
    assert_eq!(layout.canvas_height, 500);
}

#[test]
fn width_scale_wins_when_strictly_larger() {
    let state = ScalingState::new(shape(100, 50)).unwrap();
    let layout = state.layout(shape(50, 40)).unwrap();
    assert_eq!(layout.font_scale, Ratio { num: 100, den: 50 });
}

#[test]
fn huge_baseline_saturates_canvas() {
    let state = ScalingState::new(shape(2_000_000_000, 1_000_000_000)).unwrap();
    let layout = state.layout(shape(1, 1)).unwrap();
    assert_eq!(layout.canvas_width, u32::MAX);
    assert_eq!(layout.canvas_height, u32::MAX);
}

#[test]
fn line_tops_step_by_twelve_pixels() {
    assert_eq!(line_top(0), 0);
    assert_eq!(line_top(1), 12);
    assert_eq!(line_top(5), 60);
    assert_eq!(line_top(49), 588);
    assert_eq!(line_top(usize::MAX), i32::MAX);
}
