use vstd::prelude::*;
use crate::error::Error;

verus! {

/// The lifecycle shared by workers and processors.
#[derive(Clone, Copy, Debug, PartialEq, Eq, Structural)]
pub enum State {
    /// `initialize` has not finished yet; the address is not published.
    Starting,
    /// Envelopes are dequeued (or the processor polled) one at a time.
    Running,
    /// Nothing new is dequeued; the envelope in hand finishes, then `shutdown` runs.
    Stopping,
    /// The registration is gone and the address can be reused.
    Stopped,
}

/// What drives a lifecycle from one state to the next.
#[derive(Clone, Copy, Debug, PartialEq, Eq, Structural)]
pub enum Event {
    InitSucceeded,
    InitFailed,
    StopRequested,
    MailboxClosed,
    HandlerFailed,
    ShutdownDone,
}

/// The state that `e` leads to from `s`, or `None` where `e` cannot happen in `s`.
pub open spec fn transition(s: State, e: Event) -> Option<State> {
    match (s, e) {
        (State::Starting, Event::InitSucceeded) => Some(State::Running),
        (State::Starting, Event::InitFailed) => Some(State::Stopped),
        (State::Running, Event::StopRequested) => Some(State::Stopping),
        (State::Running, Event::MailboxClosed) => Some(State::Stopping),
        (State::Running, Event::HandlerFailed) => Some(State::Stopping),
        (State::Stopping, Event::StopRequested) => Some(State::Stopping),
        (State::Stopping, Event::ShutdownDone) => Some(State::Stopped),
        _ => None,
    }
}

/// Takes one lifecycle step; `InvalidState` where the event does not fit the state.
pub fn step(s: State, e: Event) -> (r: Result<State, Error>)
    ensures
        transition(s, e) matches Some(t) ==> r == Ok::<State, Error>(t),
        transition(s, e) is None ==> r == Err::<State, Error>(Error::InvalidState),
{
    match (s, e) {
        (State::Starting, Event::InitSucceeded) => Ok(State::Running),
        (State::Starting, Event::InitFailed) => Ok(State::Stopped),
        (State::Running, Event::StopRequested) => Ok(State::Stopping),
        (State::Running, Event::MailboxClosed) => Ok(State::Stopping),
        (State::Running, Event::HandlerFailed) => Ok(State::Stopping),
        (State::Stopping, Event::StopRequested) => Ok(State::Stopping),
        (State::Stopping, Event::ShutdownDone) => Ok(State::Stopped),
        _ => Err(Error::InvalidState),
    }
}

/// Whether an actor in state `s` takes new envelopes out of its mailbox.
pub fn dequeues(s: State) -> (r: bool)
    ensures
        r == (s == State::Running),
{
    match s {
        State::Running => true,
        _ => false,
    }
}

/// The state of a processor after one `poll` that ended with `polled`:
/// `Ok(true)` keeps it as it is, `Ok(false)` asks it to stop, and an error
/// stops it as a failed handler does.
pub fn after_poll(s: State, polled: Result<bool, Error>) -> (r: State)
    ensures
        polled == Ok::<bool, Error>(true) ==> r == s,
        polled == Ok::<bool, Error>(false) ==> r == (match transition(s, Event::StopRequested) {
            Some(t) => t,
            None => s,
        }),
        polled is Err ==> r == (match transition(s, Event::HandlerFailed) {
            Some(t) => t,
            None => s,
        }),
{
    let e = match polled {
        Ok(true) => {
            return s;
        },
        Ok(false) => Event::StopRequested,
        Err(_) => Event::HandlerFailed,
    };
    match step(s, e) {
        Ok(t) => t,
        Err(_) => s,
    }
}

/// A stopped actor never comes back: no event leads out of `Stopped`.
pub proof fn lemma_stopped_is_final(e: Event)
    ensures
        transition(State::Stopped, e) is None,
{
}

} // verus!
