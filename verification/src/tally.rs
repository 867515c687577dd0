//! The aggregate over finished trials: the largest count seen in the first
//! category, and how many trials have finished.

use vstd::prelude::*;

verus! {

/// Number of trials in a full run.
pub const TOTAL_TRIALS: u32 = 1_000_000_000;

/// The running maximum after one more trial has been seen.
pub open spec fn raised(current: u32, observed: u32) -> u32 {
    if current < observed {
        observed
    } else {
        current
    }
}

/// The running maximum after the trials `results`, taken in order from a
/// start of zero.
pub open spec fn running_max(results: Seq<u32>) -> u32
    decreases results.len(),
{
    if results.len() == 0 {
        0
    } else {
        raised(running_max(results.drop_last()), results.last())
    }
}

/// `m` is the largest of `results`: no result exceeds it and one of them
/// equals it. Of no results at all, the largest is taken to be zero.
pub open spec fn is_largest(results: Seq<u32>, m: u32) -> bool {
    &&& forall|i: int| 0 <= i < results.len() ==> results[i] <= m
    &&& if results.len() == 0 {
        m == 0
    } else {
        exists|i: int| 0 <= i < results.len() && results[i] == m
    }
}

/// One step of the reduction: the larger of the running maximum and the
/// count that a trial just delivered. It never returns less than `current`,
/// so a register that is only ever updated through it never falls.
pub fn raise_max(current: u32, observed: u32) -> (next: u32)
    ensures
        next == raised(current, observed),
        next >= current,
        next >= observed,
{
    if current < observed {
        observed
    } else {
        current
    }
}

/// Folding the results one by one yields their largest.
pub proof fn lemma_running_max_is_largest(results: Seq<u32>)
    ensures
        is_largest(results, running_max(results)),
    decreases results.len(),
{
    if results.len() > 0 {
        let front = results.drop_last();
        lemma_running_max_is_largest(front);
        let m = running_max(results);
        assert forall|i: int| 0 <= i < results.len() implies results[i] <= m by {
            if i < front.len() {
                assert(front[i] == results[i]);
            }
        }
        if m == results.last() {
            assert(results[results.len() - 1] == m);
        } else {
            assert(front.len() > 0);
            let i = choose|i: int| 0 <= i < front.len() && front[i] == running_max(front);
            assert(results[i] == m);
        }
    }
}

/// A sequence has only one largest value.
pub proof fn lemma_largest_is_unique(results: Seq<u32>, a: u32, b: u32)
    requires
        is_largest(results, a),
        is_largest(results, b),
    ensures
        a == b,
{
}

/// The running maximum never falls: after any prefix of the trials it is at
/// most what it is after all of them.
pub proof fn lemma_running_max_never_falls(results: Seq<u32>, n: int)
    requires
        0 <= n <= results.len(),
    ensures
        running_max(results.take(n)) <= running_max(results),
{
    let prefix = results.take(n);
    lemma_running_max_is_largest(prefix);
    lemma_running_max_is_largest(results);
    if n > 0 {
        let i = choose|i: int| 0 <= i < prefix.len() && prefix[i] == running_max(prefix);
        assert(results[i] == running_max(prefix));
    }
}

/// The order in which trials finish does not matter: two runs that deliver
/// the same results, each as often as the other, end with the same maximum.
pub proof fn lemma_running_max_any_order(first: Seq<u32>, second: Seq<u32>)
    requires
        first.to_multiset() == second.to_multiset(),
    ensures
        running_max(first) == running_max(second),
{
    lemma_running_max_is_largest(first);
    lemma_running_max_is_largest(second);
    first.to_multiset_ensures();
    second.to_multiset_ensures();
    let a = running_max(first);
    let b = running_max(second);
    assert(first.len() == second.len());
    if first.len() > 0 {
        let i = choose|i: int| 0 <= i < first.len() && first[i] == a;
        assert(first.contains(a));
        assert(second.to_multiset().count(a) > 0);
        assert(second.contains(a));
        let j = choose|j: int| 0 <= j < second.len() && second[j] == b;
        assert(second.contains(b));
        assert(first.to_multiset().count(b) > 0);
        assert(first.contains(b));
    }
}

/// The aggregate of a run, as one thread would keep it.
pub struct Tally {
    max_ones: u32,
    completed: u64,
    seen: Ghost<Seq<u32>>,
}

impl Tally {
    #[verifier::type_invariant]
    spec fn consistent(self) -> bool {
        &&& self.max_ones == running_max(self.seen@)
        &&& self.completed == self.seen@.len()
    }

    /// The first-category counts of the trials recorded so far, oldest first.
    pub closed spec fn view(&self) -> Seq<u32> {
        self.seen@
    }

    /// The aggregate before any trial has finished.
    pub fn new() -> (tally: Tally)
        ensures
            tally@ == Seq::<u32>::empty(),
    {
        Tally { max_ones: 0, completed: 0, seen: Ghost(Seq::empty()) }
    }

    /// Takes in the first-category count of one more finished trial and
    /// returns how many trials had finished before it.
    pub fn record(&mut self, ones: u32) -> (before: u64)
        requires
            old(self)@.len() < u64::MAX,
        ensures
            final(self)@ == old(self)@.push(ones),
            before == old(self)@.len(),
    {
        proof {
            use_type_invariant(&*self);
        }
        let before = self.completed;
        let ghost prior = self.seen@;
        let ghost seen = prior.push(ones);
        assert(seen.drop_last() =~= prior);
        *self = Tally {
            max_ones: raise_max(self.max_ones, ones),
            completed: before + 1,
            seen: Ghost(seen),
        };
        before
    }

    /// The largest first-category count among the recorded trials, zero
    /// where there are none.
    pub fn max_ones(&self) -> (m: u32)
        ensures
            m == running_max(self@),
            is_largest(self@, m),
    {
        proof {
            use_type_invariant(self);
            lemma_running_max_is_largest(self@);
        }
        self.max_ones
    }

    /// The number of recorded trials.
    pub fn completed(&self) -> (n: u64)
        ensures
            n == self@.len(),
    {
        proof {
            use_type_invariant(self);
        }
        self.completed
    }
}

} // verus!
