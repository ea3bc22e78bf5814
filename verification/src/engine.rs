//! The engine session: the verified decision core of the main loop. The
//! platform layer owns the window and the renderer; it feeds each window
//! event and each render outcome to the session, performs the action the
//! session picks, and reads the frame count off at the end.

use vstd::prelude::*;

use crate::window::WindowEvent;

verus! {

/// What the platform layer must do next.
#[derive(Clone, Copy, Debug, PartialEq, Eq, Structural)]
pub enum EngineAction {
    /// Render one frame and report the outcome.
    Render,
    /// Leave the loop and tear the engine down.
    Stop,
}

/// The state of one engine session: whether the loop still runs, and how
/// many frames rendered so far.
pub struct EngineLoop {
    frames: u64,
    running: bool,
}

/// Begin an engine session: no frames rendered yet, loop running. The
/// platform layer drives it by calling [`EngineLoop::handle_event`] for
/// each polled window event and [`EngineLoop::handle_render_result`] after
/// each frame, until either picks [`EngineAction::Stop`].
pub fn start_engine() -> (e: EngineLoop)
    ensures
        e.spec_frames() == 0,
        e.spec_running(),
{
    EngineLoop { frames: 0, running: true }
}

impl EngineLoop {
    /// Frames rendered so far.
    pub closed spec fn spec_frames(self) -> u64 {
        self.frames
    }

    /// The loop has not been stopped.
    pub closed spec fn spec_running(self) -> bool {
        self.running
    }

    /// Decide on a window event: a close request stops the loop, anything
    /// else leads to rendering the next frame.
    pub fn handle_event(&mut self, event: &WindowEvent) -> (a: EngineAction)
        requires
            old(self).spec_running(),
        ensures
            final(self).spec_frames() == old(self).spec_frames(),
            match event {
                WindowEvent::ShouldClose => a == EngineAction::Stop && !final(self).spec_running(),
                _ => a == EngineAction::Render && final(self).spec_running(),
            },
    {
        match event {
            WindowEvent::ShouldClose => {
                self.running = false;
                EngineAction::Stop
            },
            _ => EngineAction::Render,
        }
    }

    /// Decide on a frame's outcome: a rendered frame is counted and the
    /// loop goes on; a failed render stops the loop.
    pub fn handle_render_result(&mut self, rendered: bool) -> (a: EngineAction)
        requires
            old(self).spec_running(),
            old(self).spec_frames() < u64::MAX,
        ensures
            if rendered {
                &&& a == EngineAction::Render
                &&& final(self).spec_running()
                &&& final(self).spec_frames() == old(self).spec_frames() + 1
            } else {
                &&& a == EngineAction::Stop
                &&& !final(self).spec_running()
                &&& final(self).spec_frames() == old(self).spec_frames()
            },
    {
        if rendered {
            self.frames = self.frames + 1;
            EngineAction::Render
        } else {
            self.running = false;
            EngineAction::Stop
        }
    }

    /// Frames rendered so far; the platform layer derives its timing
    /// statistics from this.
    pub fn frames(&self) -> (n: u64)
        ensures
            n == self.spec_frames(),
    {
        self.frames
    }

    /// Whether the loop still runs.
    pub fn is_running(&self) -> (r: bool)
        ensures
            r == self.spec_running(),
    {
        self.running
    }
}

} // verus!
