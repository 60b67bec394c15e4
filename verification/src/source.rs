//! Decisions of the platform event-source loop.
//!
//! The background thread waits on two conditions at once — the stop signal and
//! the platform notification channel — and for each readiness event asks the
//! functions here what to do. The waiting itself, being blocking I/O, lives
//! with the caller; the choices live here.

use vstd::prelude::*;

use vstd::string::StringExecFns;

use crate::device::EventType;

verus! {

/// What the background loop does with one readiness event.
pub enum WaitAction {
    /// The stop signal fired: drain it, close the queue, and exit the loop.
    Stop,
    /// The notification channel ended: close the queue and exit the loop.
    SourceEnded,
    /// Device notifications are pending: read and enqueue them.
    Drain,
    /// Not a condition this loop waits for.
    Ignore,
}

/// The decision for a readiness event: registration 0 is the stop signal,
/// registration 1 the platform notification channel.
pub open spec fn wait_action_of(token: int, readable: bool, read_closed: bool) -> WaitAction {
    if token == 0 && readable {
        WaitAction::Stop
    } else if token == 1 && read_closed {
        WaitAction::SourceEnded
    } else if token == 1 && readable {
        WaitAction::Drain
    } else {
        WaitAction::Ignore
    }
}

/// Decide what one readiness event asks of the loop. The stop signal and the
/// notification channel are co-equal wait conditions; the end of the channel
/// outranks pending data on it.
pub fn wait_action(token: usize, readable: bool, read_closed: bool) -> (a: WaitAction)
    ensures
        a == wait_action_of(token as int, readable, read_closed),
{
    if token == 0 && readable {
        WaitAction::Stop
    } else if token == 1 && read_closed {
        WaitAction::SourceEnded
    } else if token == 1 && readable {
        WaitAction::Drain
    } else {
        WaitAction::Ignore
    }
}

/// The event kind a platform action name stands for.
pub open spec fn kind_of_action(action: Seq<char>) -> Option<EventType> {
    if action == "add"@ {
        Some(EventType::Add)
    } else if action == "remove"@ {
        Some(EventType::Remove)
    } else {
        None
    }
}

/// Classify a platform notification by its action name: an `add` is an
/// attach, a `remove` a detach; every other action is ignored.
pub fn event_kind(action: &String) -> (r: Option<EventType>)
    ensures
        r == kind_of_action(action@),
{
    if *action == String::from_str("add") {
        Some(EventType::Add)
    } else if *action == String::from_str("remove") {
        Some(EventType::Remove)
    } else {
        None
    }
}

} // verus!
