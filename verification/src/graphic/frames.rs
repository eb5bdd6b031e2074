//! Pacing the visualization: a frame is asked of the graphic thread only once
//! the last one has come back, and the buffer it comes back with is the one
//! the next frame is drawn into.

use vstd::prelude::*;

use crate::graphic::GraphicBuffer;

verus! {

/// Whether a frame is being rendered, or which buffer the next one is drawn
/// into.
#[derive(Debug)]
pub enum RenderingState {
    Running,
    Idle(GraphicBuffer),
}

/// The state after asking for a frame, and the buffer handed to the graphic
/// thread, if a frame was started at all.
pub open spec fn after_start(state: RenderingState) -> (RenderingState, Option<GraphicBuffer>) {
    match state {
        RenderingState::Running => (RenderingState::Running, None),
        RenderingState::Idle(buffer) => (RenderingState::Running, Some(buffer)),
    }
}

impl RenderingState {
    /// No frame rendering, and an empty buffer to draw the first one into.
    pub fn new() -> (state: Self)
        ensures
            state matches RenderingState::Idle(buffer) && buffer.wf() && buffer.spec_width() == 0
                && buffer.spec_height() == 0,
    {
        RenderingState::Idle(GraphicBuffer::default())
    }

    /// Starts a frame, handing out the buffer to draw it into, or `None` if
    /// the last frame is still rendering and this one must be skipped.
    pub fn start(&mut self) -> (buffer: Option<GraphicBuffer>)
        ensures
            (*final(self), buffer) == after_start(*old(self)),
    {
        let mut state = RenderingState::Running;
        core::mem::swap(self, &mut state);
        match state {
            RenderingState::Running => None,
            RenderingState::Idle(buffer) => Some(buffer),
        }
    }

    /// Ends the frame in flight: `buffer` is what the next frame is drawn
    /// into.
    pub fn finish(&mut self, buffer: GraphicBuffer)
        requires
            *old(self) is Running,
        ensures
            *final(self) == RenderingState::Idle(buffer),
    {
        *self = RenderingState::Idle(buffer);
    }
}

/// One frame at a time: once a frame is started, asking for another starts
/// nothing until it finishes, and the next frame is drawn into the buffer
/// the finished one handed back.
pub proof fn law_one_frame_at_a_time(state: RenderingState, returned: GraphicBuffer)
    ensures
        after_start(after_start(state).0).1 is None,
        after_start(after_start(state).0).0 == after_start(state).0,
        after_start(RenderingState::Idle(returned)).1 == Some(returned),
{
}

} // verus!
