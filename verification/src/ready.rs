//! The rendezvous of the interface, once it has drawn itself, and the window that
//! waits to be shown.

use vstd::prelude::*;

verus! {

/// The rendezvous: when the application started, and whether a signal waits to be
/// taken.
#[derive(Clone, Copy, PartialEq, Eq, Debug, Structural)]
pub struct ReadyGate {
    /// In milliseconds of a clock that never goes back.
    pub launched_at: Option<u64>,
    pub signalled: bool,
}

impl ReadyGate {
    /// Nothing has happened.
    pub fn new() -> (g: ReadyGate)
        ensures
            g.launched_at is None,
            !g.signalled,
    {
        ReadyGate { launched_at: None, signalled: false }
    }
}

/// When the application started: now, where nobody asked before.
pub open spec fn launch_time(gate: ReadyGate, now: u64) -> u64 {
    match gate.launched_at {
        Some(t) => t,
        None => now,
    }
}

/// Start the clock, unless it is running.
pub fn mark_launch(gate: &mut ReadyGate, now: u64)
    ensures
        *final(gate) == (ReadyGate { launched_at: Some(launch_time(*old(gate), now)), ..*old(gate) }),
{
    if gate.launched_at.is_none() {
        gate.launched_at = Some(now);
    }
}

/// How long the application has been running, in milliseconds.
pub fn since_launch_ms(gate: &mut ReadyGate, now: u64) -> (r: u64)
    requires
        old(gate).launched_at matches Some(t) ==> t <= now,
    ensures
        r == now - launch_time(*old(gate), now),
        *final(gate) == (ReadyGate { launched_at: Some(launch_time(*old(gate), now)), ..*old(gate) }),
{
    match gate.launched_at {
        Some(t) => now - t,
        None => {
            gate.launched_at = Some(now);
            0
        },
    }
}

/// The interface has drawn itself. A signal that nobody waits for is kept; a
/// second one adds nothing to it.
pub fn signal(gate: &mut ReadyGate, now: u64)
    ensures
        *final(gate) == (ReadyGate {
            launched_at: Some(launch_time(*old(gate), now)),
            signalled: true,
        }),
{
    mark_launch(gate, now);
    gate.signalled = true;
}

/// Take the signal, if there is one: whether the wait is over.
pub fn take_signal(gate: &mut ReadyGate) -> (r: bool)
    ensures
        r == old(gate).signalled,
        *final(gate) == (ReadyGate { signalled: false, ..*old(gate) }),
{
    let arrived = gate.signalled;
    gate.signalled = false;
    arrived
}

/// The clock starts at the first look at it, and no later one starts it anew.
pub proof fn the_first_look_starts_the_clock(gate: ReadyGate, first: u64, later: u64)
    ensures
        gate.launched_at is None ==> launch_time(gate, first) == first,
        gate.launched_at is Some ==> Some(launch_time(gate, first)) == gate.launched_at,
        launch_time(
            ReadyGate { launched_at: Some(launch_time(gate, first)), ..gate },
            later,
        ) == launch_time(gate, first),
{
}

} // verus!
