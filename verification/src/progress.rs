//! Throttling of progress lines: which completions may ask for a report, and
//! the deadline that lets at most one report through per interval.
//!
//! All times are nanoseconds elapsed since the run began.

use vstd::prelude::*;

verus! {

/// Only a completion whose count before it is a multiple of this stride asks
/// for a report.
pub const SAMPLING_STRIDE: u64 = 100_000;

/// Time between two permitted progress lines: ten seconds.
pub const REPORT_INTERVAL_NANOS: u64 = 10_000_000_000;

/// Whether the completion that found `completed_before` trials already
/// finished is one that asks for a report.
pub fn is_sample_point(completed_before: u64) -> (asks: bool)
    ensures
        asks == (completed_before % SAMPLING_STRIDE == 0),
{
    completed_before % SAMPLING_STRIDE == 0
}

/// A poll at `now` reports when the deadline has been reached.
pub open spec fn is_due(deadline: nat, now: nat) -> bool {
    now >= deadline
}

/// The deadline after one poll at `now`: moved on by one interval where the
/// poll reported, untouched where it did not.
pub open spec fn deadline_after_poll(deadline: nat, interval: nat, now: nat) -> nat {
    if is_due(deadline, now) {
        deadline + interval
    } else {
        deadline
    }
}

/// The deadline after the polls at the times `polls`, made in that order on
/// a throttle that started with `deadline`.
pub open spec fn deadline_after(deadline: nat, interval: nat, polls: Seq<nat>) -> nat
    decreases polls.len(),
{
    if polls.len() == 0 {
        deadline
    } else {
        deadline_after_poll(
            deadline_after(deadline, interval, polls.drop_last()),
            interval,
            polls.last(),
        )
    }
}

/// The deadline that poll number `i` of the run meets.
pub open spec fn deadline_at(deadline: nat, interval: nat, polls: Seq<nat>, i: int) -> nat {
    deadline_after(deadline, interval, polls.take(i))
}

/// Whether poll number `i` of the run reports.
pub open spec fn reports_at(deadline: nat, interval: nat, polls: Seq<nat>, i: int) -> bool {
    is_due(deadline_at(deadline, interval, polls, i), polls[i])
}

/// How many of the polls report.
pub open spec fn reports_among(deadline: nat, interval: nat, polls: Seq<nat>) -> nat
    decreases polls.len(),
{
    if polls.len() == 0 {
        0
    } else {
        let earlier = reports_among(deadline, interval, polls.drop_last());
        if is_due(deadline_after(deadline, interval, polls.drop_last()), polls.last()) {
            earlier + 1
        } else {
            earlier
        }
    }
}

/// The deadline moves by exactly one interval per report and by nothing
/// else.
pub proof fn lemma_deadline_counts_reports(deadline: nat, interval: nat, polls: Seq<nat>)
    ensures
        deadline_after(deadline, interval, polls) == deadline + interval * reports_among(
            deadline,
            interval,
            polls,
        ),
    decreases polls.len(),
{
    if polls.len() == 0 {
        assert(interval * 0 == 0) by (nonlinear_arith);
    } else {
        let front = polls.drop_last();
        lemma_deadline_counts_reports(deadline, interval, front);
        let earlier = reports_among(deadline, interval, front);
        assert(interval * (earlier + 1) == interval * earlier + interval) by (nonlinear_arith);
    }
}

/// The deadline is never rewound: after any prefix of the polls it is at
/// most what it is after all of them.
pub proof fn lemma_deadline_never_rewinds(deadline: nat, interval: nat, polls: Seq<nat>, n: int)
    requires
        0 <= n <= polls.len(),
    ensures
        deadline_after(deadline, interval, polls.take(n)) <= deadline_after(
            deadline,
            interval,
            polls,
        ),
    decreases polls.len(),
{
    if n == polls.len() {
        assert(polls.take(n) =~= polls);
    } else {
        let front = polls.drop_last();
        assert(front.take(n) =~= polls.take(n));
        lemma_deadline_never_rewinds(deadline, interval, front, n);
    }
}

/// At most one report per interval: a poll that reports after `k` earlier
/// reports comes no sooner than `k` intervals after the first deadline.
pub proof fn lemma_report_waits_its_turn(deadline: nat, interval: nat, polls: Seq<nat>, i: int)
    requires
        0 <= i < polls.len(),
        reports_at(deadline, interval, polls, i),
    ensures
        polls[i] >= deadline + interval * reports_among(deadline, interval, polls.take(i)),
{
    lemma_deadline_counts_reports(deadline, interval, polls.take(i));
}

/// Two reports of one run are spaced by the deadline: the later one comes at
/// least one interval after the deadline that the earlier one met. Measured
/// from the earlier report itself, the gap may fall short of an interval by
/// as much as that report was late.
pub proof fn lemma_reports_spaced_by_deadline(
    deadline: nat,
    interval: nat,
    polls: Seq<nat>,
    i: int,
    j: int,
)
    requires
        0 <= i < j < polls.len(),
        reports_at(deadline, interval, polls, i),
        reports_at(deadline, interval, polls, j),
    ensures
        polls[j] >= deadline_at(deadline, interval, polls, i) + interval,
        polls[j] - polls[i] >= interval - (polls[i] - deadline_at(deadline, interval, polls, i)),
{
    let upto = polls.take(j);
    let through = upto.take(i + 1);
    assert(through =~= polls.take(i + 1));
    assert(through.drop_last() =~= polls.take(i));
    assert(through.last() == polls[i]);
    lemma_deadline_never_rewinds(deadline, interval, upto, i + 1);
}

/// Reports that come on time are strictly ordered and a full interval
/// apart: where the earlier of two reports was made at the very deadline it
/// met, the later one follows it by at least one interval.
pub proof fn lemma_punctual_reports_an_interval_apart(
    deadline: nat,
    interval: nat,
    polls: Seq<nat>,
    i: int,
    j: int,
)
    requires
        0 < interval,
        0 <= i < j < polls.len(),
        reports_at(deadline, interval, polls, i),
        reports_at(deadline, interval, polls, j),
        polls[i] == deadline_at(deadline, interval, polls, i),
    ensures
        polls[i] < polls[j],
        polls[j] - polls[i] >= interval,
{
    lemma_reports_spaced_by_deadline(deadline, interval, polls, i, j);
}

/// The guarded deadline of the progress reporter.
pub struct ReportThrottle {
    interval: u64,
    next_deadline: u128,
}

impl ReportThrottle {
    /// Time between two permitted reports.
    pub closed spec fn interval(&self) -> nat {
        self.interval as nat
    }

    /// Earliest time at which the next report is let through.
    pub closed spec fn deadline(&self) -> nat {
        self.next_deadline as nat
    }

    /// A throttle whose first deadline lies one interval after the start.
    pub fn new(interval: u64) -> (throttle: ReportThrottle)
        ensures
            throttle.interval() == interval,
            throttle.deadline() == interval,
    {
        ReportThrottle { interval, next_deadline: interval as u128 }
    }

    /// Earliest time at which the next report is let through.
    pub fn next_deadline(&self) -> (deadline: u128)
        ensures
            deadline == self.deadline(),
    {
        self.next_deadline
    }

    /// Asks at time `now` whether a progress line may be printed. Where the
    /// deadline has been reached the answer is yes and the deadline moves on
    /// by exactly one interval; otherwise nothing changes.
    pub fn poll(&mut self, now: u64) -> (report: bool)
        ensures
            report == is_due(old(self).deadline(), now as nat),
            final(self).interval() == old(self).interval(),
            final(self).deadline() == deadline_after_poll(
                old(self).deadline(),
                old(self).interval(),
                now as nat,
            ),
    {
        if now as u128 >= self.next_deadline {
            self.next_deadline = self.next_deadline + self.interval as u128;
            true
        } else {
            false
        }
    }
}

} // verus!
