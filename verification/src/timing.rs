//! When a run may start, and how long to wait otherwise.

use vstd::prelude::*;
use crate::plans::Timestamp;

verus! {

/// How long to wait.
#[derive(Debug, Clone, Copy, PartialEq, Eq, Structural)]
pub struct Delay {
    pub seconds: u64,
    /// Nanoseconds past the seconds.
    pub nanos: u32,
}

/// An instant in nanoseconds since the Unix epoch.
pub open spec fn instant(t: Timestamp) -> int {
    t.seconds * 1_000_000_000 + t.nanos
}

/// The time from one instant to another that is not before it. It ends at the longest there is.
pub open spec fn delay(from: Timestamp, to: Timestamp) -> Option<Delay> {
    let nanos = instant(to) - instant(from);
    if nanos < 0 {
        None
    } else if nanos / 1_000_000_000 > u64::MAX {
        Some(Delay { seconds: u64::MAX, nanos: 999_999_999 })
    } else {
        Some(
            Delay {
                seconds: (nanos / 1_000_000_000) as u64,
                nanos: (nanos % 1_000_000_000) as u32,
            },
        )
    }
}

/// The time from one instant to another, or none where the other has passed.
pub fn delay_until(from: Timestamp, to: Timestamp) -> (res: Option<Delay>)
    ensures
        res == delay(from, to),
{
    let to_nanos: i128 = to.seconds as i128 * 1_000_000_000 + to.nanos as i128;
    let from_nanos: i128 = from.seconds as i128 * 1_000_000_000 + from.nanos as i128;
    let nanos: i128 = to_nanos - from_nanos;
    if nanos < 0 {
        return None;
    }
    let seconds: i128 = nanos / 1_000_000_000;
    if seconds > u64::MAX as i128 {
        return Some(Delay { seconds: u64::MAX, nanos: 999_999_999 });
    }
    Some(Delay { seconds: seconds as u64, nanos: (nanos % 1_000_000_000) as u32 })
}

/// A whole number of seconds.
pub open spec fn seconds(n: u64) -> Delay {
    Delay { seconds: n, nanos: 0 }
}

/// A whole number of seconds.
pub fn delay_seconds(n: u64) -> (res: Delay)
    ensures
        res == seconds(n),
{
    Delay { seconds: n, nanos: 0 }
}

/// What a schedule says about the current time.
#[derive(Debug, Clone, Copy, PartialEq, Eq)]
pub enum Timing {
    /// The next slot is still to come.
    Delayed(Timestamp),
    /// A run may start: in the slot that began at this instant, or in none where there is no schedule.
    Now(Option<Timestamp>),
}

/// What the first slot of a schedule's window says about now: one that has begun may be used, and one
/// that is still to come is waited for.
pub open spec fn slot_timing(slot: Timestamp, now: Timestamp) -> Timing {
    if instant(now) < instant(slot) {
        Timing::Delayed(slot)
    } else {
        Timing::Now(Some(slot))
    }
}

/// What the first slot of a schedule's window says about now.
pub fn timing_of_slot(slot: Timestamp, now: Timestamp) -> (res: Timing)
    ensures
        res == slot_timing(slot, now),
        res matches Timing::Delayed(until) ==> delay(now, until) is Some,
{
    let slot_nanos: i128 = slot.seconds as i128 * 1_000_000_000 + slot.nanos as i128;
    let now_nanos: i128 = now.seconds as i128 * 1_000_000_000 + now.nanos as i128;
    if now_nanos < slot_nanos {
        Timing::Delayed(slot)
    } else {
        Timing::Now(Some(slot))
    }
}

/// Whether a slot is the one that already had its run.
pub open spec fn triggered(start: Option<Timestamp>, last_triggered_run: Option<Timestamp>) -> bool {
    match (start, last_triggered_run) {
        (Some(start), Some(last)) => start.same_instant(last),
        _ => false,
    }
}

/// Whether a slot already had its run. Without a schedule there is no slot, and nothing to suppress.
pub fn slot_already_triggered(
    start: Option<Timestamp>,
    last_triggered_run: Option<Timestamp>,
) -> (res: bool)
    ensures
        res == triggered(start, last_triggered_run),
{
    match (start, last_triggered_run) {
        (Some(start), Some(last)) => start.is_instant(&last),
        _ => false,
    }
}

// --- laws ------------------------------------------------------------------------------------

/// A delay reaches the instant it was asked for, to the nanosecond, and there is none to an instant
/// that has passed.
pub proof fn a_delay_reaches_its_instant(from: Timestamp, to: Timestamp)
    requires
        from.nanos < 1_000_000_000,
        to.nanos < 1_000_000_000,
    ensures
        delay(from, to) is None <==> to.seconds < from.seconds || (to.seconds == from.seconds
            && to.nanos < from.nanos),
        delay(from, to) matches Some(wait) ==> wait.nanos < 1_000_000_000 && (from.seconds
            + wait.seconds) * 1_000_000_000 + from.nanos + wait.nanos == to.seconds * 1_000_000_000
            + to.nanos,
{
}

/// A slot is told by the instant it began, whatever offset that is written with, and what has no slot
/// used none.
pub proof fn a_slot_is_told_by_its_instant(a: Timestamp, b: Timestamp, slot: Option<Timestamp>)
    ensures
        triggered(Some(a), Some(b)) <==> a.seconds == b.seconds && a.nanos == b.nanos,
        !triggered(None, slot),
        !triggered(slot, None),
{
}

/// A run may start from the instant its slot begins, and not before.
pub proof fn a_slot_opens_when_it_begins(slot: Timestamp, now: Timestamp)
    requires
        slot.nanos < 1_000_000_000,
        now.nanos < 1_000_000_000,
    ensures
        slot_timing(slot, now) == if now.seconds < slot.seconds || (now.seconds == slot.seconds
            && now.nanos < slot.nanos) {
            Timing::Delayed(slot)
        } else {
            Timing::Now(Some(slot))
        },
{
}

} // verus!
