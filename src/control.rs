//! What the frame loop does with the input it receives.
use vstd::prelude::*;

verus! {

/// The pause between frames that paces the loop at sixty frames a second.
pub const FRAME_NANOS: u32 = 1_000_000_000 / 60;

/// What one input event asks of the frame loop.
#[derive(Clone, Copy, Debug, PartialEq, Eq, Structural)]
pub enum Command {
    /// Leave the loop (the window was closed, or Escape pressed).
    Stop,
    /// Switch the pause between frames off or back on.
    TogglePacing,
    /// Nothing.
    Ignore,
}

/// The state of the frame loop.
#[derive(Clone, Copy, Debug, PartialEq, Eq, Structural)]
pub struct FrameLoop {
    /// Whether another frame is to be run.
    pub running: bool,
    /// Whether frames are paced by a pause of `FRAME_NANOS`.
    pub paced: bool,
}

impl FrameLoop {
    /// A running, paced loop.
    pub fn new() -> (r: FrameLoop)
        ensures
            r.running,
            r.paced,
    {
        FrameLoop { running: true, paced: true }
    }

    /// The state after `c`.
    pub fn apply(self, c: Command) -> (r: FrameLoop)
        ensures
            c == Command::Stop ==> r == (FrameLoop { running: false, paced: self.paced }),
            c == Command::TogglePacing ==> r == (FrameLoop { running: self.running, paced: !self.paced }),
            c == Command::Ignore ==> r == self,
    {
        match c {
            Command::Stop => FrameLoop { running: false, paced: self.paced },
            Command::TogglePacing => FrameLoop { running: self.running, paced: !self.paced },
            Command::Ignore => self,
        }
    }

    /// How long to pause after a frame, in nanoseconds.
    pub fn pause_nanos(&self) -> (r: u32)
        ensures
            r == (if self.paced { FRAME_NANOS } else { 0 }),
    {
        if self.paced {
            FRAME_NANOS
        } else {
            0
        }
    }
}

} // verus!
