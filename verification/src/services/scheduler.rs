//! When the background scheduler checks the subscriptions. Sleeping and waiting for a
//! settings change are done by the caller.

use vstd::prelude::*;

use crate::models::Subscription;

verus! {

/// How the scheduler waits after a round of checks.
#[derive(Debug, Clone, Copy, PartialEq, Eq, Structural)]
pub enum SchedulerWait {
    /// Manual mode (interval 0): wait for a settings change only.
    ForSettingsChange,
    /// Wait this many seconds, or less when the settings change.
    ForTimeoutOrChange(u64),
}

/// The service that runs the periodic subscription checks.
pub struct SchedulerService;

impl SchedulerService {
    /// An interval of `interval_mins` minutes in seconds.
    pub fn interval_secs(interval_mins: u32) -> (s: u64)
        ensures
            s == interval_mins * 60,
    {
        interval_mins as u64 * 60
    }

    /// The delay before the first round: a whole interval, none in manual mode.
    pub fn initial_delay(interval_mins: u32) -> (d: Option<u64>)
        ensures
            interval_mins > 0 ==> d == Some((interval_mins * 60) as u64),
            interval_mins == 0 ==> d is None,
    {
        if interval_mins > 0 {
            Some(Self::interval_secs(interval_mins))
        } else {
            None
        }
    }

    /// How to wait after a round.
    pub fn wait_after_round(interval_mins: u32) -> (w: SchedulerWait)
        ensures
            interval_mins == 0 ==> w == SchedulerWait::ForSettingsChange,
            interval_mins > 0 ==> w == SchedulerWait::ForTimeoutOrChange((interval_mins * 60) as u64),
    {
        if interval_mins == 0 {
            SchedulerWait::ForSettingsChange
        } else {
            SchedulerWait::ForTimeoutOrChange(Self::interval_secs(interval_mins))
        }
    }

    /// The positions, in order, of the subscriptions a round checks: those not paused.
    pub fn due_subscriptions(subs: &Vec<Subscription>) -> (due: Vec<usize>)
        ensures
            forall|k: int| 0 <= k < due@.len() ==> (#[trigger] due@[k]) < subs@.len() && !subs@[due@[k] as int].paused,
            forall|a: int, b: int| 0 <= a < b < due@.len() ==> (#[trigger] due@[a]) < (#[trigger] due@[b]),
            forall|i: int|
                0 <= i < subs@.len() && !(#[trigger] subs@[i]).paused ==> exists|k: int|
                    0 <= k < due@.len() && due@[k] == i,
    {
        let mut due: Vec<usize> = Vec::new();
        let mut i: usize = 0;
        while i < subs.len()
            invariant
                i <= subs@.len(),
                forall|k: int| 0 <= k < due@.len() ==> (#[trigger] due@[k]) < i && !subs@[due@[k] as int].paused,
                forall|a: int, b: int| 0 <= a < b < due@.len() ==> (#[trigger] due@[a]) < (#[trigger] due@[b]),
                forall|j: int|
                    0 <= j < i && !(#[trigger] subs@[j]).paused ==> exists|k: int|
                        0 <= k < due@.len() && due@[k] == j,
            decreases subs@.len() - i,
        {
            let ghost before = due@;
            if !subs[i].paused {
                due.push(i);
                assert(due@[before.len() as int] == i);
            }
            assert forall|j: int|
                0 <= j < i + 1 && !(#[trigger] subs@[j]).paused implies exists|k: int|
                    0 <= k < due@.len() && due@[k] == j by {
                if j < i {
                    let k = choose|k: int| 0 <= k < before.len() && before[k] == j;
                    assert(due@[k] == j);
                }
            }
            i += 1;
        }
        due
    }
}

} // verus!
