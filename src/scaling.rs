use vstd::prelude::*;

use crate::grid::GridShape;

verus! {

/// Font size, in pixels, of a frame whose grid has the baseline shape.
pub const BASE_FONT_SIZE: u32 = 10;

/// A non-negative rational number `num / den`.
#[derive(Clone, Copy, Debug, PartialEq, Eq, Structural)]
pub struct Ratio {
    pub num: usize,
    pub den: usize,
}

impl Ratio {
    /// The ratio equals one.
    pub open spec fn is_one(self) -> bool {
        self.num == self.den
    }

    /// `self` is strictly greater than `other`.
    pub open spec fn gt(self, other: Ratio) -> bool {
        self.num * other.den > other.num * self.den
    }
}

/// Why no layout can be computed for a grid.
#[derive(Clone, Copy, Debug, PartialEq, Eq, Structural)]
pub enum ScalingError {
    /// The grid has no lines, or its longest line is empty.
    InvalidGridShape,
}

/// Sizes derived for one frame: the scale factors against the baseline, the
/// font scale (the font size is `BASE_FONT_SIZE` times it) and the canvas.
#[derive(Clone, Copy, Debug, PartialEq, Eq, Structural)]
pub struct FrameLayout {
    pub width_scale: Ratio,
    pub height_scale: Ratio,
    pub font_scale: Ratio,
    pub canvas_width: u32,
    pub canvas_height: u32,
}

/// `value` clamped to the range of `u32`, as a cast of a float to `u32` saturates.
pub open spec fn saturate_u32(value: int) -> int {
    if value > u32::MAX as int { u32::MAX as int } else { value }
}

/// The canvas width: `line_len * BASE_FONT_SIZE * (base_len / line_len) * 0.4`,
/// in exact arithmetic, rounded down and saturated.
pub open spec fn canvas_width_of(base_len: int, line_len: int) -> int {
    saturate_u32((line_len * BASE_FONT_SIZE * base_len * 2) / (line_len * 5))
}

/// The canvas height: `line_count * BASE_FONT_SIZE * (base_count / line_count)`,
/// in exact arithmetic, rounded down and saturated.
pub open spec fn canvas_height_of(base_count: int, line_count: int) -> int {
    saturate_u32((line_count * BASE_FONT_SIZE * base_count) / line_count)
}

/// The layout of a frame of shape `shape` against the baseline `base`.
pub open spec fn layout_of(base: GridShape, shape: GridShape) -> FrameLayout {
    let ws = Ratio { num: base.max_line_len, den: shape.max_line_len };
    let hs = Ratio { num: base.line_count, den: shape.line_count };
    FrameLayout {
        width_scale: ws,
        height_scale: hs,
        font_scale: if ws.gt(hs) { ws } else { hs },
        canvas_width: canvas_width_of(base.max_line_len as int, shape.max_line_len as int) as u32,
        canvas_height: canvas_height_of(base.line_count as int, shape.line_count as int) as u32,
    }
}

/// The baseline that every frame of a run is scaled against: the shape of
/// the first frame's grid. It is fixed once made.
#[derive(Clone, Copy, Debug, PartialEq, Eq, Structural)]
pub struct ScalingState {
    base: GridShape,
}

proof fn lemma_cancel(a: int, b: int, c: int)
    requires
        a > 0,
        b >= 0,
        c > 0,
    ensures
        (a * b) / (a * c) == b / c,
{
    let q = b / c;
    let m = b % c;
    vstd::arithmetic::div_mod::lemma_fundamental_div_mod(b, c);
    vstd::arithmetic::div_mod::lemma_mod_pos_bound(b, c);
    assert(a * b == (a * c) * q + a * m) by (nonlinear_arith)
        requires
            b == c * q + m,
    ;
    assert(0 <= a * m < a * c) by (nonlinear_arith)
        requires
            a > 0,
            0 <= m < c,
    ;
    vstd::arithmetic::div_mod::lemma_fundamental_div_mod_converse(a * b, a * c, q, a * m);
}

/// The canvas width is four pixels per baseline column, whatever the frame.
pub proof fn lemma_canvas_width_value(base_len: int, line_len: int)
    requires
        base_len >= 0,
        line_len > 0,
    ensures
        canvas_width_of(base_len, line_len) == saturate_u32(4 * base_len),
{
    assert(line_len * BASE_FONT_SIZE * base_len * 2 == line_len * (20 * base_len)) by (nonlinear_arith);
    lemma_cancel(line_len, 20 * base_len, 5);
    assert((20 * base_len) / 5 == 4 * base_len);
}

/// The canvas height is ten pixels per baseline line, whatever the frame.
pub proof fn lemma_canvas_height_value(base_count: int, line_count: int)
    requires
        base_count >= 0,
        line_count > 0,
    ensures
        canvas_height_of(base_count, line_count) == saturate_u32(10 * base_count),
{
    assert(line_count * BASE_FONT_SIZE * base_count == line_count * (10 * base_count)) by (nonlinear_arith);
    lemma_cancel(line_count, 10 * base_count, 1);
}

/// A frame whose grid has the baseline's shape is drawn at scale one: its
/// width, height and font scales are all one.
pub proof fn lemma_identity_scale(base: GridShape)
    requires
        base.is_drawable(),
    ensures
        layout_of(base, base).width_scale.is_one(),
        layout_of(base, base).height_scale.is_one(),
        layout_of(base, base).font_scale.is_one(),
{
}

/// Every frame is drawn on the canvas of the first frame, whatever its shape.
pub proof fn lemma_canvas_fixed(base: GridShape, shape: GridShape)
    requires
        base.is_drawable(),
        shape.is_drawable(),
    ensures
        layout_of(base, shape).canvas_width == layout_of(base, base).canvas_width,
        layout_of(base, shape).canvas_height == layout_of(base, base).canvas_height,
{
    lemma_canvas_width_value(base.max_line_len as int, shape.max_line_len as int);
    lemma_canvas_width_value(base.max_line_len as int, base.max_line_len as int);
    lemma_canvas_height_value(base.line_count as int, shape.line_count as int);
    lemma_canvas_height_value(base.line_count as int, base.line_count as int);
}

/// The width scale goes against the line length: of two frames, the one with
/// the longer longest line gets the strictly smaller width scale.
pub proof fn lemma_longer_lines_scale_down(base: GridShape, a: GridShape, b: GridShape)
    requires
        base.is_drawable(),
        a.is_drawable(),
        b.is_drawable(),
        a.max_line_len < b.max_line_len,
    ensures
        layout_of(base, a).width_scale.gt(layout_of(base, b).width_scale),
{
    let n = base.max_line_len as int;
    assert(n * (b.max_line_len as int) > n * (a.max_line_len as int)) by (nonlinear_arith)
        requires
            n > 0,
            a.max_line_len < b.max_line_len,
    ;
}

/// Vertical position, in pixels, of the top of text line `row`:
/// `BASE_FONT_SIZE * row * 1.2`, rounded down and saturated to `i32`.
pub open spec fn line_top_of(row: int) -> int {
    let y = (BASE_FONT_SIZE * row * 6) / 5;
    if y > i32::MAX as int { i32::MAX as int } else { y }
}

/// Where line `row` of a grid is drawn on the canvas.
pub fn line_top(row: usize) -> (r: i32)
    ensures
        r as int == line_top_of(row as int),
{
    if row > (i32::MAX as usize) / 12 {
        i32::MAX
    } else {
        (row as i32) * 12
    }
}

impl ScalingState {
    pub open spec fn wf(self) -> bool {
        self.baseline().is_drawable()
    }

    /// The baseline shape.
    pub closed spec fn baseline(self) -> GridShape {
        self.base
    }

    /// Latches the baseline from the first frame's grid shape.
    pub fn new(first: GridShape) -> (r: Result<ScalingState, ScalingError>)
        ensures
            first.is_drawable() ==> (r matches Ok(s) && s.wf() && s.baseline() == first),
            !first.is_drawable() ==> r == Err::<ScalingState, _>(ScalingError::InvalidGridShape),
    {
        if first.max_line_len == 0 || first.line_count == 0 {
            Err(ScalingError::InvalidGridShape)
        } else {
            Ok(ScalingState { base: first })
        }
    }

    /// The baseline's longest line, in bytes.
    pub fn base_row_char_count(&self) -> (r: usize)
        ensures
            r == self.baseline().max_line_len,
    {
        self.base.max_line_len
    }

    /// The baseline's number of lines.
    pub fn base_line_count(&self) -> (r: usize)
        ensures
            r == self.baseline().line_count,
    {
        self.base.line_count
    }

    /// The layout of a frame whose grid has shape `shape`.
    pub fn layout(&self, shape: GridShape) -> (r: Result<FrameLayout, ScalingError>)
        ensures
            shape.is_drawable() ==> r == Ok::<_, ScalingError>(layout_of(self.baseline(), shape)),
            !shape.is_drawable() ==> r == Err::<FrameLayout, _>(ScalingError::InvalidGridShape),
    {
        if shape.max_line_len == 0 || shape.line_count == 0 {
            return Err(ScalingError::InvalidGridShape);
        }
        let ws = Ratio { num: self.base.max_line_len, den: shape.max_line_len };
        let hs = Ratio { num: self.base.line_count, den: shape.line_count };
        assert((ws.num as int) * (hs.den as int) <= u64::MAX as int * u64::MAX as int) by (nonlinear_arith)
            requires
                ws.num <= u64::MAX,
                hs.den <= u64::MAX,
        ;
        assert((hs.num as int) * (ws.den as int) <= u64::MAX as int * u64::MAX as int) by (nonlinear_arith)
            requires
                hs.num <= u64::MAX,
                ws.den <= u64::MAX,
        ;
        let lhs: u128 = (ws.num as u128) * (hs.den as u128);
        let rhs: u128 = (hs.num as u128) * (ws.den as u128);
        let font_scale = if lhs > rhs { ws } else { hs };
        proof {
            lemma_canvas_width_value(ws.num as int, ws.den as int);
            lemma_canvas_height_value(hs.num as int, hs.den as int);
        }
        let canvas_width: u32 = if self.base.max_line_len > (u32::MAX / 4) as usize {
            u32::MAX
        } else {
            (self.base.max_line_len as u32) * 4
        };
        let canvas_height: u32 = if self.base.line_count > (u32::MAX / 10) as usize {
            u32::MAX
        } else {
            (self.base.line_count as u32) * 10
        };
        Ok(FrameLayout { width_scale: ws, height_scale: hs, font_scale, canvas_width, canvas_height })
    }
}

} // verus!
