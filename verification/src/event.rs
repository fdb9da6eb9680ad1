//! The events that reach the user's callback, and what the callback answers.
use crate::dpi::LogicalSize;
use crate::ids::{DeviceId, WindowId};
use crate::time::Instant;
use vstd::prelude::*;

verus! {

/// Something that happened to a window.
#[derive(Debug, Copy, Clone, PartialEq, Eq)]
pub enum WindowEvent {
    /// The window has a new size.
    Resized(LogicalSize),
    /// The window was asked to close.
    CloseRequested,
    /// The window is gone.
    Destroyed,
    /// The window received a character.
    ReceivedCharacter(char),
    /// The window gained (`true`) or lost (`false`) the focus.
    Focused(bool),
    /// The window's scale factor changed.
    HiDpiFactorChanged(i32),
    /// The window should be drawn again.
    RedrawRequested,
}

/// Something that happened to a device, whatever window has the focus.
#[derive(Debug, Copy, Clone, PartialEq, Eq)]
pub enum DeviceEvent {
    Added,
    Removed,
    Button { button: u32, pressed: bool },
    Text { codepoint: char },
}

/// Why a new round of events begins.
#[derive(Debug, Copy, Clone, PartialEq, Eq)]
#[allow(inconsistent_fields)]
pub enum StartCause {
    /// The time that was waited for has come.
    ResumeTimeReached { start: Instant, requested_resume: Instant },
    /// Something else ended the wait.
    WaitCancelled { start: Instant, requested_resume: Option<Instant> },
    /// The loop does not wait between rounds.
    Poll,
    /// The loop has just begun.
    Init,
}

/// An event, as the user's callback gets it.
#[derive(Debug, PartialEq, Eq)]
#[allow(inconsistent_fields)]
pub enum Event<T> {
    WindowEvent { window_id: WindowId, event: WindowEvent },
    DeviceEvent { device_id: DeviceId, event: DeviceEvent },
    /// What a proxy of the loop sent.
    UserEvent(T),
    /// A round of events begins.
    NewEvents(StartCause),
    /// All events of the round have been handed out.
    EventsCleared,
    /// The loop is about to return; nothing comes after this.
    LoopDestroyed,
}

/// What the user's callback wants the loop to do once a round is over.
#[derive(Debug, Copy, Clone, PartialEq, Eq, Structural)]
pub enum ControlFlow {
    /// Begin the next round at once.
    Poll,
    /// Begin the next round when something happens.
    Wait,
    /// Begin the next round when something happens, or at the given time.
    WaitUntil(Instant),
    /// Leave the loop.
    Exit,
}

impl Default for ControlFlow {
    fn default() -> (control_flow: Self)
        ensures
            control_flow == ControlFlow::Poll,
    {
        ControlFlow::Poll
    }
}

} // verus!
