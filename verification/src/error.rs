use vstd::prelude::*;

verus! {

/// The recoverable domain errors of the timer model.
#[derive(Clone, Copy, Debug, PartialEq, Eq, Structural)]
pub enum AppError {
    /// A start was requested on a timer that is already running.
    TimerAlreadyRunning,
    /// A stop or abort was requested on a timer that is idle.
    NoTimerRunning,
    /// An operation referenced a timer name absent from the registry.
    NoSuchTimer,
}

impl AppError {
    /// The user-facing description of this error.
    pub fn message(&self) -> (r: &'static str)
        ensures
            *self is TimerAlreadyRunning ==> r@ == "Timer already running"@,
            *self is NoTimerRunning ==> r@ == "No timer running"@,
            *self is NoSuchTimer ==> r@ == "No timer with this name"@,
    {
        match self {
            AppError::TimerAlreadyRunning => "Timer already running",
            AppError::NoTimerRunning => "No timer running",
            AppError::NoSuchTimer => "No timer with this name",
        }
    }
}

} // verus!
