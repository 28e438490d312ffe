use vstd::prelude::*;

verus! {

/// Per-frame control flags derived from the polled key state; not persisted
/// across frames.
#[derive(Clone, Copy, PartialEq, Eq, Structural, Debug, Default)]
pub struct FrameState {
    /// The frame loop stops before the next render.
    pub quit: bool,
    /// A random mutation pass runs this frame.
    pub randomize: bool,
}

/// Derive the frame's control flags from the pressed keys: escape quits, the
/// space bar requests a randomize pass.
pub fn derive_state(escape_pressed: bool, space_pressed: bool) -> (s: FrameState)
    ensures
        s.quit == escape_pressed,
        s.randomize == space_pressed,
{
    FrameState { quit: escape_pressed, randomize: space_pressed }
}

} // verus!
