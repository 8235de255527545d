//! The three buttons, and the debouncing of their presses.
use vstd::prelude::*;

verus! {

/// One of the three buttons: feed, pet, play.
#[derive(Clone, Copy, PartialEq, Eq, Debug, Structural)]
pub enum Button {
    A,
    B,
    C,
}

} // verus!

verus! {

/// Milliseconds a press must hold the line low to count.
pub const DEBOUNCE_MS: u64 = 5;
/// Milliseconds to let the line settle after a release before re-arming.
pub const SETTLE_MS: u64 = 20;

/// Where the watcher of one button is.
#[derive(Clone, Copy, PartialEq, Eq, Debug, Structural)]
pub enum WatchState {
    /// Waiting for the line to fall.
    Armed,
    /// The line fell; waiting out the debounce delay.
    Debouncing,
    /// A press was reported; waiting for the line to rise.
    Held,
    /// The line rose; waiting for it to settle.
    Settling,
}

/// What the watcher observed.
#[derive(Clone, Copy, PartialEq, Eq, Debug, Structural)]
pub enum WatchEvent {
    /// The line fell.
    Fell,
    /// The delay asked for has passed; `high` is the level of the line then.
    Slept { high: bool },
    /// The line rose.
    Rose,
}

/// What the watcher must do next.
#[derive(Clone, Copy, PartialEq, Eq, Debug, Structural)]
pub enum WatchAction {
    /// Wait for the line to fall.
    WaitFalling,
    /// Sleep this many milliseconds, then sample the line.
    Sleep { ms: u64 },
    /// Report the press, then wait for the line to rise.
    ReportThenWaitRising,
}

/// The action that each state waits on.
pub open spec fn waiting_action(s: WatchState) -> WatchAction {
    match s {
        WatchState::Armed => WatchAction::WaitFalling,
        WatchState::Debouncing => WatchAction::Sleep { ms: DEBOUNCE_MS },
        WatchState::Held => WatchAction::ReportThenWaitRising,
        WatchState::Settling => WatchAction::Sleep { ms: SETTLE_MS },
    }
}

/// The watcher's next state on an event: a fall starts the debounce; a line
/// still low after it is a press, one that went high again a transient; a
/// rise after a press starts the settling delay, after which the watcher
/// re-arms. An event a state does not wait for leaves it as it is.
pub open spec fn watch_next(s: WatchState, e: WatchEvent) -> WatchState {
    match (s, e) {
        (WatchState::Armed, WatchEvent::Fell) => WatchState::Debouncing,
        (WatchState::Debouncing, WatchEvent::Slept { high }) => if high {
            WatchState::Armed
        } else {
            WatchState::Held
        },
        (WatchState::Held, WatchEvent::Rose) => WatchState::Settling,
        (WatchState::Settling, WatchEvent::Slept { .. }) => WatchState::Armed,
        _ => s,
    }
}

/// One step of the watcher of a button: from its state and what it observed,
/// its next state and what it must do next.
pub fn watch_step(s: WatchState, e: WatchEvent) -> (r: (WatchState, WatchAction))
    ensures
        r.0 == watch_next(s, e),
        r.1 == waiting_action(r.0),
{
    let next = match (s, e) {
        (WatchState::Armed, WatchEvent::Fell) => WatchState::Debouncing,
        (WatchState::Debouncing, WatchEvent::Slept { high }) => if high {
            WatchState::Armed
        } else {
            WatchState::Held
        },
        (WatchState::Held, WatchEvent::Rose) => WatchState::Settling,
        (WatchState::Settling, WatchEvent::Slept { .. }) => WatchState::Armed,
        _ => s,
    };
    let action = match next {
        WatchState::Armed => WatchAction::WaitFalling,
        WatchState::Debouncing => WatchAction::Sleep { ms: DEBOUNCE_MS },
        WatchState::Held => WatchAction::ReportThenWaitRising,
        WatchState::Settling => WatchAction::Sleep { ms: SETTLE_MS },
    };
    (next, action)
}

/// The watcher's state after observing `events` in order, starting from `s`.
pub open spec fn watch_run(s: WatchState, events: Seq<WatchEvent>) -> WatchState
    decreases events.len(),
{
    if events.len() == 0 {
        s
    } else {
        watch_next(watch_run(s, events.drop_last()), events.last())
    }
}

/// How many presses the watcher reports while observing `events` from `s`:
/// one each time it enters `Held`.
pub open spec fn watch_reports(s: WatchState, events: Seq<WatchEvent>) -> nat
    decreases events.len(),
{
    if events.len() == 0 {
        0
    } else {
        watch_reports(s, events.drop_last()) + if watch_run(s, events.drop_last()) != WatchState::Held
            && watch_run(s, events) == WatchState::Held {
            1nat
        } else {
            0nat
        }
    }
}

/// How many times the line rose during `events`.
pub open spec fn rises(events: Seq<WatchEvent>) -> nat
    decreases events.len(),
{
    if events.len() == 0 {
        0
    } else {
        rises(events.drop_last()) + if events.last() == WatchEvent::Rose {
            1nat
        } else {
            0nat
        }
    }
}

/// A held button is reported once: after a report the watcher reports nothing
/// more until the line has risen, so over any run it reports at most one press
/// more than the line rose (none more when it started holding a press).
pub proof fn lemma_one_report_per_release(s: WatchState, events: Seq<WatchEvent>)
    ensures
        watch_reports(s, events) + (if s == WatchState::Held { 1int } else { 0int }) <= rises(events)
            + (if watch_run(s, events) == WatchState::Held { 1int } else { 0int }),
        watch_reports(s, events) <= rises(events) + 1,
    decreases events.len(),
{
    if events.len() > 0 {
        lemma_one_report_per_release(s, events.drop_last());
    }
}

/// A press is reported only when the line, having fallen, is still low once
/// the debounce delay has passed: the watcher reaches `Held` from no other
/// state and on no other event.
pub proof fn lemma_report_needs_held_line(s: WatchState, e: WatchEvent)
    ensures
        watch_next(s, e) == WatchState::Held && s != WatchState::Held ==> s == WatchState::Debouncing
            && e == (WatchEvent::Slept { high: false }),
{
}

} // verus!
