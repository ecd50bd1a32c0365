use vstd::prelude::*;

use crate::grid::GridShape;
use crate::naming::{frame_file_name, frame_file_name_of};
use crate::scaling::{layout_of, FrameLayout, ScalingError, ScalingState};

verus! {

/// Every way in which a conversion run fails; each one ends the run.
#[derive(Clone, Copy, Debug, PartialEq, Eq, Structural)]
pub enum PipelineError {
    /// The input container, codec or stream could not be read.
    DecodeError,
    /// The frame's pixel format could not be converted to RGB.
    ConversionError,
    /// An image could not be read or written.
    IoError,
    /// The embedded font could not be loaded.
    FontLoadError,
    /// A frame's grid has a degenerate shape.
    ScalingError,
    /// The external encoder could not be run or failed.
    SubprocessError,
}

/// The pipeline error for a scaling failure.
pub fn scaling_failure(e: ScalingError) -> (r: PipelineError)
    ensures
        r == PipelineError::ScalingError,
{
    match e {
        ScalingError::InvalidGridShape => PipelineError::ScalingError,
    }
}

/// What is decided for one output frame.
#[derive(Clone, Debug)]
pub struct FramePlan {
    /// The frame's position in the output sequence.
    pub index: u64,
    /// The name of the output image.
    pub file_name: String,
    /// Font and canvas sizes.
    pub layout: FrameLayout,
}

/// The run-wide state of the frame pipeline: the scaling baseline, latched
/// from the first frame, and the number of frames put out so far.
pub struct FramePipeline {
    scaling: Option<ScalingState>,
    frames_done: u64,
}

/// A run's state, as the baseline once latched and the number of frames put
/// out, after one more frame of shape `shape`: a degenerate frame changes
/// nothing.
pub open spec fn after_frame(state: (Option<GridShape>, nat), shape: GridShape) -> (
    Option<GridShape>,
    nat,
) {
    if !shape.is_drawable() {
        state
    } else {
        (if state.0 is None { Some(shape) } else { state.0 }, state.1 + 1)
    }
}

/// The state after the frames of shapes `shapes`, in order, from `state`.
pub open spec fn after_frames_from(state: (Option<GridShape>, nat), shapes: Seq<GridShape>) -> (
    Option<GridShape>,
    nat,
)
    decreases shapes.len(),
{
    if shapes.len() == 0 {
        state
    } else {
        after_frame(after_frames_from(state, shapes.drop_last()), shapes.last())
    }
}

/// The state after the frames of shapes `shapes`, in order, from a fresh run.
pub open spec fn after_frames(shapes: Seq<GridShape>) -> (Option<GridShape>, nat) {
    after_frames_from((None, 0), shapes)
}

proof fn lemma_after_frames_split(
    state: (Option<GridShape>, nat),
    a: Seq<GridShape>,
    b: Seq<GridShape>,
)
    ensures
        after_frames_from(state, a + b) == after_frames_from(after_frames_from(state, a), b),
    decreases b.len(),
{
    if b.len() == 0 {
        assert(a + b =~= a);
    } else {
        lemma_after_frames_split(state, a, b.drop_last());
        assert((a + b).drop_last() =~= a + b.drop_last());
        assert((a + b).last() == b.last());
    }
}

/// Once latched, the baseline never changes: whatever frames follow,
/// drawable or degenerate, it stays as it was, and the frame count never
/// goes down.
pub proof fn lemma_latched_baseline_kept(state: (Option<GridShape>, nat), shapes: Seq<GridShape>)
    requires
        state.0 is Some,
    ensures
        after_frames_from(state, shapes).0 == state.0,
        after_frames_from(state, shapes).1 >= state.1,
    decreases shapes.len(),
{
    if shapes.len() > 0 {
        lemma_latched_baseline_kept(state, shapes.drop_last());
    }
}

/// The baseline is the shape of the run's first frame, whatever frames
/// follow it.
pub proof fn lemma_baseline_latch(shapes: Seq<GridShape>)
    requires
        shapes.len() > 0,
        shapes[0].is_drawable(),
    ensures
        after_frames(shapes).0 == Some(shapes[0]),
{
    let first = shapes.take(1);
    let rest = shapes.skip(1);
    assert(shapes =~= first + rest);
    lemma_after_frames_split((None, 0), first, rest);
    assert(first.drop_last() =~= Seq::<GridShape>::empty());
    assert(after_frames_from((None, 0), Seq::<GridShape>::empty()) == (None::<GridShape>, 0nat));
    assert(first.last() == shapes[0]);
    assert(after_frames_from((None, 0), first).0 == Some(shapes[0]));
    lemma_latched_baseline_kept(after_frames_from((None, 0), first), rest);
}

/// When every frame is drawable, the frames before frame `k` number `k`:
/// frame indices run from zero with no gaps.
pub proof fn lemma_frame_indices_contiguous(shapes: Seq<GridShape>)
    requires
        forall|i: int| 0 <= i < shapes.len() ==> (#[trigger] shapes[i]).is_drawable(),
    ensures
        after_frames(shapes).1 == shapes.len(),
        forall|k: int| 0 <= k <= shapes.len() ==> #[trigger] after_frames(shapes.take(k)).1 == k,
    decreases shapes.len(),
{
    if shapes.len() > 0 {
        let rest = shapes.drop_last();
        lemma_frame_indices_contiguous(rest);
        assert(shapes.last() == shapes[shapes.len() - 1]);
        assert forall|k: int| 0 <= k <= shapes.len() implies #[trigger] after_frames(
            shapes.take(k),
        ).1 == k by {
            if k < shapes.len() {
                assert(shapes.take(k) =~= rest.take(k));
            } else {
                assert(shapes.take(k) =~= shapes);
            }
        }
    } else {
        assert(shapes.take(0) =~= shapes);
    }
}

impl FramePipeline {
    pub closed spec fn view(&self) -> (Option<GridShape>, nat) {
        (
            match self.scaling {
                Some(s) => Some(s.baseline()),
                None => None,
            },
            self.frames_done as nat,
        )
    }

    pub closed spec fn wf(&self) -> bool {
        self.scaling matches Some(s) ==> s.wf()
    }

    /// A run that has seen no frame.
    pub fn new() -> (r: FramePipeline)
        ensures
            r.wf(),
            r.view() == after_frames(Seq::empty()),
    {
        FramePipeline { scaling: None, frames_done: 0 }
    }

    /// The number of frames put out so far.
    pub fn frames_done(&self) -> (r: u64)
        ensures
            r == self.view().1,
    {
        self.frames_done
    }

    /// The latched baseline, if a frame has been seen.
    pub fn baseline(&self) -> (r: Option<GridShape>)
        ensures
            r == self.view().0,
    {
        match &self.scaling {
            Some(s) => Some(GridShape {
                max_line_len: s.base_row_char_count(),
                line_count: s.base_line_count(),
            }),
            None => None,
        }
    }

    /// Decides the next output frame for a grid of shape `shape`: latches the
    /// baseline on the first frame, computes the layout against it and names
    /// the frame after the count so far. A degenerate grid is refused and
    /// changes nothing.
    pub fn plan_frame(&mut self, shape: GridShape) -> (r: Result<FramePlan, ScalingError>)
        requires
            old(self).wf(),
            old(self).view().1 < u64::MAX,
        ensures
            final(self).wf(),
            final(self).view() == after_frame(old(self).view(), shape),
            !shape.is_drawable() ==> r == Err::<FramePlan, _>(ScalingError::InvalidGridShape),
            shape.is_drawable() ==> r is Ok,
            r matches Ok(plan) ==> {
                &&& plan.index == old(self).view().1
                &&& plan.file_name@ == frame_file_name_of(plan.index as nat)
                &&& final(self).view().0 matches Some(base) && plan.layout == layout_of(base, shape)
            },
    {
        let state = match self.scaling {
            Some(s) => s,
            None => match ScalingState::new(shape) {
                Ok(s) => s,
                Err(e) => return Err(e),
            },
        };
        let layout = match state.layout(shape) {
            Ok(l) => l,
            Err(e) => return Err(e),
        };
        let index = self.frames_done;
        self.scaling = Some(state);
        self.frames_done = index + 1;
        Ok(FramePlan { index, file_name: frame_file_name(index), layout })
    }
}

} // verus!
