//! The trial engine: one trial is a run of uniform four-way draws, counted
//! per category.

use rand::rngs::ThreadRng;
use vstd::prelude::*;

verus! {

/// Number of outcome categories of a single draw.
pub const CATEGORIES: usize = 4;

/// Number of draws that make up one trial.
pub const N_DRAWS: u32 = 231;

/// `rand`'s handle to the thread-local generator. Nothing inside it is
/// visible to the proofs; it is only carried to the draw.
#[verifier::external_type_specification]
#[verifier::external_body]
pub struct ExThreadRng(rand::rngs::ThreadRng);

/// Draws an integer from `0..bound` with `rand::Rng::gen_range`.
///
/// Trusted, not proved: the value that `gen_range` hands back lies in the
/// half-open range it was given. `gen_range` panics on an empty range, which
/// `requires` rules out. Which value comes back is left open: it is random.
/// `gen_range` samples again until a sample is accepted, which ends with
/// probability one. The thread-local generator reseeds itself from the
/// operating system now and then and panics if that source fails; no
/// argument of this function decides that, so no clause speaks of it.
#[verifier::external_body]
fn draw_below(rng: &mut ThreadRng, bound: usize) -> (drawn: usize)
    requires
        0 < bound,
    ensures
        drawn < bound,
{
    rand::Rng::gen_range(rng, 0..bound)
}

/// The counters `before` with the one at `slot` raised by one.
pub open spec fn bump(before: Seq<u32>, slot: int) -> Seq<u32> {
    before.update(slot, (before[slot] + 1) as u32)
}

/// Sum of the four category counters: the number of draws they stand for.
pub open spec fn total(counters: Seq<u32>) -> int {
    counters[0] + counters[1] + counters[2] + counters[3]
}

/// `after` is `before` with exactly one of the four counters raised by one.
pub open spec fn one_draw_apart(before: Seq<u32>, after: Seq<u32>) -> bool {
    exists|slot: int| 0 <= slot < CATEGORIES && after == #[trigger] bump(before, slot)
}

/// No counter of `before` is larger in `after`.
pub open spec fn none_lowered(before: Seq<u32>, after: Seq<u32>) -> bool {
    forall|slot: int| 0 <= slot < CATEGORIES ==> before[slot] <= #[trigger] after[slot]
}

/// Every counter can still take `more` draws without leaving `u32`.
pub open spec fn has_room(counters: Seq<u32>, more: int) -> bool {
    forall|slot: int| 0 <= slot < CATEGORIES ==> #[trigger] counters[slot] + more <= u32::MAX
}

/// One trial: a borrowed source of randomness and one counter per category.
pub struct RollSimulator<'a, T> {
    rng: &'a mut T,
    numbers: [u32; 4],
}

impl<'a, T> RollSimulator<'a, T> {
    /// The four counters, in category order.
    pub closed spec fn view(&self) -> Seq<u32> {
        self.numbers@
    }

    /// The generator that the trial draws from, as it stands.
    pub closed spec fn source(&self) -> T {
        *self.rng
    }

    /// Number of draws counted so far.
    pub open spec fn draws(&self) -> int {
        total(self@)
    }

    /// There are always exactly four counters.
    pub proof fn lemma_four_counters(&self)
        ensures
            self@.len() == CATEGORIES,
    {
    }

    /// A fresh trial over the caller's generator, with every counter at zero.
    pub fn new(rng: &'a mut T) -> (sim: Self)
        ensures
            sim@ == seq![0u32, 0u32, 0u32, 0u32],
            sim.draws() == 0,
            sim.source() == *old(rng),
    {
        RollSimulator { rng, numbers: [0; 4] }
    }

    /// Counts one draw that fell into category `roll`. The generator is not
    /// asked.
    pub fn record_roll(&mut self, roll: usize)
        requires
            roll < CATEGORIES,
            old(self)@[roll as int] < u32::MAX,
        ensures
            final(self)@ == bump(old(self)@, roll as int),
            final(self).draws() == old(self).draws() + 1,
            final(self).source() == old(self).source(),
    {
        let raised: u32 = self.numbers[roll] + 1;
        self.numbers[roll] = raised;
    }

    /// The four counters as they stand.
    pub fn curr_rolls(&self) -> (rolls: &[u32])
        ensures
            rolls@ == self@,
            rolls@.len() == CATEGORIES,
    {
        &self.numbers
    }
}

impl<'a> RollSimulator<'a, ThreadRng> {
    /// Draws one category uniformly from the four and counts it. Needs room
    /// for one more draw in every counter, as any of them may be the one.
    pub fn roll_one(&mut self)
        requires
            has_room(old(self)@, 1),
        ensures
            one_draw_apart(old(self)@, final(self)@),
            final(self).draws() == old(self).draws() + 1,
    {
        let roll = draw_below(self.rng, CATEGORIES);
        // The draw went through the generator alone.
        assert(self.numbers == old(self).numbers);
        self.record_roll(roll);
    }

    /// Draws and counts `n` times in a row. A fresh trial has room for any
    /// `n`.
    pub fn roll_n(&mut self, n: u32)
        requires
            has_room(old(self)@, n as int),
        ensures
            final(self).draws() == old(self).draws() + n,
            none_lowered(old(self)@, final(self)@),
    {
        let mut done: u32 = 0;
        while done < n
            invariant
                done <= n,
                self.draws() == old(self).draws() + done,
                none_lowered(old(self)@, self@),
                has_room(self@, n - done),
            decreases n - done,
        {
            self.roll_one();
            done = done + 1;
        }
    }
}

/// Runs one whole trial on `rng` and returns how often the first category
/// was drawn.
pub fn run_trial(rng: &mut ThreadRng) -> (ones: u32)
    ensures
        ones <= N_DRAWS,
{
    let mut sim = RollSimulator::new(rng);
    sim.roll_n(N_DRAWS);
    let rolls = sim.curr_rolls();
    rolls[0]
}

} // verus!
