//! When a watchdog breaks an operation off.
use vstd::prelude::*;

verus! {

/// How often a watchdog past its deadline raises the break again, in nanoseconds: one request is
/// no guarantee, since a busy operation can be between two polls when it arrives.
pub const WATCHDOG_REPEAT: u64 = 200_000_000;

/// A watchdog: its deadline, in nanoseconds from when it was armed, and whether it was reached.
#[derive(Debug, Clone, Copy, PartialEq, Eq, Structural)]
pub struct Watchdog {
    pub deadline: u64,
    pub fired: bool,
}

/// What a watchdog does once it wakes.
#[derive(Debug, Clone, Copy, PartialEq, Eq, Structural)]
pub enum Woken {
    /// It was disarmed, and is over.
    Stop,
    /// It raises the break.
    Raise,
    /// It goes back to sleep.
    Sleep,
}

impl Watchdog {
    /// What a watchdog that wakes does. A wake-up of no account is harmless: the deadline
    /// decides, not the fact of having woken.
    pub open spec fn wakes(&self, disarmed: bool, elapsed: u64) -> Woken {
        if disarmed {
            Woken::Stop
        } else if elapsed >= self.deadline {
            Woken::Raise
        } else {
            Woken::Sleep
        }
    }

    /// A watchdog with a deadline so many milliseconds away.
    pub fn arm(deadline_ms: u32) -> (watchdog: Watchdog)
        ensures
            watchdog.deadline == deadline_ms * 1_000_000,
            !watchdog.fired,
    {
        Watchdog { deadline: deadline_ms as u64 * 1_000_000, fired: false }
    }

    /// How long to sleep: exactly as long as there is left, and past the deadline until the next
    /// repeat.
    pub fn nap(&self, elapsed: u64) -> (nap: u64)
        ensures
            self.fired ==> nap == WATCHDOG_REPEAT,
            !self.fired && elapsed <= self.deadline ==> nap == self.deadline - elapsed,
            !self.fired && elapsed > self.deadline ==> nap == 0,
    {
        if self.fired {
            WATCHDOG_REPEAT
        } else {
            self.deadline.saturating_sub(elapsed)
        }
    }

    /// What to do on waking, `elapsed` nanoseconds after it was armed.
    pub fn woken(&mut self, disarmed: bool, elapsed: u64) -> (woken: Woken)
        ensures
            woken == old(self).wakes(disarmed, elapsed),
            final(self).deadline == old(self).deadline,
            final(self).fired == (old(self).fired || woken is Raise),
    {
        if disarmed {
            return Woken::Stop;
        }
        if elapsed >= self.deadline {
            self.fired = true;
            return Woken::Raise;
        }
        Woken::Sleep
    }
}

/// What a watchdog comes to over its wake-ups: each says whether it was disarmed by then, and how
/// much time had passed.
pub open spec fn fired_after(watchdog: Watchdog, wakes: Seq<(bool, u64)>) -> bool
    decreases wakes.len(),
{
    if wakes.len() == 0 {
        watchdog.fired
    } else {
        fired_after(watchdog, wakes.drop_last()) || watchdog.wakes(
            wakes.last().0,
            wakes.last().1,
        ) is Raise
    }
}

/// A watchdog fires where it was armed past its deadline, and only there: one that is disarmed
/// before its deadline never does.
pub proof fn only_the_deadline_fires(watchdog: Watchdog, wakes: Seq<(bool, u64)>)
    requires
        !watchdog.fired,
    ensures
        fired_after(watchdog, wakes) <==> exists|i: int|
            0 <= i < wakes.len() && !(#[trigger] wakes[i]).0 && wakes[i].1 >= watchdog.deadline,
    decreases wakes.len(),
{
    if wakes.len() > 0 {
        let before = wakes.drop_last();
        only_the_deadline_fires(watchdog, before);
        if fired_after(watchdog, before) {
            let i = choose|i: int|
                0 <= i < before.len() && !(#[trigger] before[i]).0 && before[i].1
                    >= watchdog.deadline;
            assert(wakes[i] == before[i]);
        }
        if exists|i: int|
            0 <= i < wakes.len() && !(#[trigger] wakes[i]).0 && wakes[i].1 >= watchdog.deadline {
            let i = choose|i: int|
                0 <= i < wakes.len() && !(#[trigger] wakes[i]).0 && wakes[i].1
                    >= watchdog.deadline;
            if i < before.len() {
                assert(before[i] == wakes[i]);
            }
        }
    }
}

/// A watchdog that wakes stops where it was disarmed, whatever the time is; and else raises the
/// break from its deadline on, and sleeps before it.
pub proof fn a_watchdog_wakes_to_one_thing(watchdog: Watchdog, disarmed: bool, elapsed: u64)
    ensures
        watchdog.wakes(disarmed, elapsed) is Stop <==> disarmed,
        watchdog.wakes(disarmed, elapsed) is Raise <==> !disarmed && elapsed >= watchdog.deadline,
        watchdog.wakes(disarmed, elapsed) is Sleep <==> !disarmed && elapsed < watchdog.deadline,
{
}

/// A break that has to be raised again is, five times a second.
pub proof fn a_break_is_repeated()
    ensures
        5 * WATCHDOG_REPEAT == 1_000_000_000,
{
}

} // verus!
