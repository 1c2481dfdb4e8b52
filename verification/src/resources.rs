//! The state that the systems share.

use vstd::prelude::*;

verus! {

/// The repeating timer that paces the player's steps.
pub struct MoveTimer(pub bevy::time::Timer);

impl MoveTimer {
    pub fn new(timer: bevy::time::Timer) -> (r: Self)
        ensures
            r.0 == timer,
    {
        Self(timer)
    }
}

/// The latest direction the player asked for: one component per axis, of which
/// only the sign counts. Both zero means that nothing is asked for.
#[derive(Clone, Copy, PartialEq, Eq, Debug, Structural)]
pub struct InputBuffer {
    pub x: i8,
    pub y: i8,
}

impl InputBuffer {
    pub open spec fn is_idle(self) -> bool {
        self.x == 0 && self.y == 0
    }

    /// The buffer that asks for nothing.
    pub fn idle() -> (r: Self)
        ensures
            r == (InputBuffer { x: 0, y: 0 }),
    {
        InputBuffer { x: 0, y: 0 }
    }
}

/// The lines that bots say, in the order they were loaded.
pub struct BotDialogues {
    pub lines: Vec<String>,
}

} // verus!
