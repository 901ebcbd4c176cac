use crate::checksum::{
    accumulate, checksum, checksum_of, fold_in, fold_value, lemma_offset_matches_check,
};
use crate::error::DebugOffErr;
use crate::protocol::{lemma_check_count, run, untraced_answers};
use crate::rand::{next_output, next_state};
use crate::state::{ptraceme, step, Aa, PtraceState, Verdict};
use vstd::prelude::*;

verus! {

/// Number of rounds in one multi-check.
pub const ROUNDS: usize = 16;

/// How many checks a round makes, given the build-time random word `draw`:
/// between 2 and 5.
pub fn iterations_for(draw: usize) -> (n: usize)
    ensures
        n == draw % 4 + 2,
        2 <= n <= 5,
{
    draw % 4 + 2
}

/// What one round of a multi-check has gathered so far: the values drawn,
/// in order, and the offset folded from them as they came.
#[derive(Debug)]
pub struct Round {
    pub v: Vec<u32>,
    pub offset: u32,
}

impl Round {
    /// The offset is the one that folding the values in order, against the
    /// seed table `sr`, gives.
    pub open spec fn wf_for(&self, sr: Seq<u32>) -> bool {
        self.offset == accumulate(self.v@, sr)
    }

    /// A round with nothing gathered yet.
    pub fn new() -> (round: Round)
        ensures
            round.v@.len() == 0,
            round.offset == 0,
            forall|sr: Seq<u32>| round.wf_for(sr),
    {
        Round { v: Vec::new(), offset: 0 }
    }
}

impl Aa {
    /// One check inside a round. The outcome `res` is classified as by
    /// `check_once`; when it passes, a value is drawn from the generator,
    /// recorded in `round` and folded into its offset.
    pub fn round_step(&mut self, round: &mut Round, res: Result<(), DebugOffErr>) -> (v: Verdict)
        ensures
            step(old(self).ptrace_state, res is Ok) is Some <==> v == Verdict::Continue,
            v == Verdict::Continue ==> {
                &&& final(self).ptrace_state == step(old(self).ptrace_state, res is Ok)->Some_0
                &&& final(self).r@ == next_state(old(self).r@)
                &&& final(round).v@ == old(round).v@.push(next_output(old(self).r@))
                &&& final(round).offset == fold_value(
                    old(round).offset,
                    next_output(old(self).r@),
                    old(self).sr@,
                )
            },
            v == Verdict::Terminate ==> {
                &&& final(self).ptrace_state == old(self).ptrace_state
                &&& final(self).r == old(self).r
                &&& *final(round) == *old(round)
            },
            final(self).sr == old(self).sr,
            old(round).wf_for(old(self).sr@) ==> final(round).wf_for(final(self).sr@),
    {
        let verdict = self.check_once(res);
        if verdict == Verdict::Continue {
            let r = self.r.rand();
            round.v.push(r);
            round.offset = fold_in(round.offset, r, &self.sr);
            assert(round.v@.drop_last() =~= old(round).v@);
        }
        verdict
    }

    /// The check at the end of a round: the checksum recomputed from the
    /// recorded values must equal the accumulated offset.
    pub fn round_check(&self, round: &Round) -> (v: Verdict)
        ensures
            v == Verdict::Continue <==> round.offset == checksum_of(round.v@, self.sr@),
            round.wf_for(self.sr@) ==> v == Verdict::Continue,
    {
        proof {
            lemma_offset_matches_check(round.v@, self.sr@);
        }
        let check = checksum(&round.v, &self.sr);
        if check != round.offset {
            Verdict::Terminate
        } else {
            Verdict::Continue
        }
    }
}

/// What a multi-check asks of its caller next.
#[derive(Debug, Clone, Copy, PartialEq, Eq, Structural)]
pub enum Action {
    /// Issue a trace request and feed its raw result in.
    Trace,
    /// Every round passed: return to the application.
    Done,
    /// A check failed: end the process now.
    Terminate,
}

/// The sum of `counts`.
pub open spec fn total(counts: Seq<usize>) -> nat
    decreases counts.len(),
{
    if counts.len() == 0 {
        0
    } else {
        (total(counts.drop_last()) + counts.last()) as nat
    }
}

/// The number of checks in each round when the build-time random words are
/// `draws`.
pub open spec fn round_counts(draws: Seq<usize>) -> Seq<usize> {
    Seq::new(draws.len(), |j: int| (draws[j] % 4 + 2) as usize)
}

proof fn lemma_total_prefix_grows(counts: Seq<usize>, i: int, j: int)
    requires
        0 <= i <= j <= counts.len(),
    ensures
        total(counts.take(i)) <= total(counts.take(j)),
    decreases j - i,
{
    if i < j {
        assert(counts.take(j).drop_last() =~= counts.take(j - 1));
        lemma_total_prefix_grows(counts, i, j - 1);
    }
}

/// A multi-check in progress: `ROUNDS` rounds, each of a build-time random
/// number of checks, each round closed by comparing its accumulated offset
/// with the checksum recomputed from its values.
#[derive(Debug)]
pub struct MultiCheck {
    counts: Vec<usize>,
    round: usize,
    left: usize,
    current: Round,
    stopped: bool,
}

impl MultiCheck {
    /// The number of checks of each round.
    pub closed spec fn counts(&self) -> Seq<usize> {
        self.counts@
    }

    /// The number of checks that have passed so far.
    pub closed spec fn passed(&self) -> nat {
        (total(self.counts@.take(self.round as int)) + if self.round < self.counts@.len() {
            self.counts@[self.round as int] - self.left
        } else {
            0
        }) as nat
    }

    /// Whether a failed check has ended the multi-check.
    pub closed spec fn stopped(&self) -> bool {
        self.stopped
    }

    /// The internal invariant, for a thread whose seed table is `sr`.
    pub open spec fn wf(&self, sr: Seq<u32>) -> bool {
        self.shape_ok() && self.round_ok(sr)
    }

    /// The part of the internal invariant that holds the round so far: its
    /// offset matches its values for the seed table `sr`.
    pub closed spec fn round_ok(&self, sr: Seq<u32>) -> bool {
        self.current.wf_for(sr)
    }

    /// The part of the internal invariant on the counters.
    pub closed spec fn shape_ok(&self) -> bool {
        &&& self.counts@.len() == ROUNDS
        &&& forall|j: int| 0 <= j < ROUNDS ==> 1 <= #[trigger] self.counts@[j]
        &&& self.round <= ROUNDS
        &&& self.round < ROUNDS ==> 1 <= self.left <= self.counts@[self.round as int]
        &&& self.round == ROUNDS ==> self.left == 0
    }

    /// What the caller must do next.
    pub open spec fn action(&self) -> Action {
        if self.stopped() {
            Action::Terminate
        } else if self.passed() == total(self.counts()) {
            Action::Done
        } else {
            Action::Trace
        }
    }

    proof fn lemma_passed_bound(&self)
        requires
            self.shape_ok(),
        ensures
            self.passed() <= total(self.counts()),
            self.passed() == total(self.counts()) <==> self.round == ROUNDS,
    {
        if self.round < ROUNDS {
            assert(self.counts@.take(self.round + 1).drop_last() =~= self.counts@.take(
                self.round as int,
            ));
            lemma_total_prefix_grows(self.counts@, self.round + 1, ROUNDS as int);
        }
        assert(self.counts@.take(ROUNDS as int) =~= self.counts@);
    }

    /// A multi-check that has made no check yet, its round sizes drawn from
    /// the build-time random words `draws`.
    pub fn new(draws: &[usize; ROUNDS]) -> (m: MultiCheck)
        ensures
            m.counts() == round_counts(draws@),
            m.passed() == 0,
            !m.stopped(),
            m.shape_ok(),
            forall|sr: Seq<u32>| m.wf(sr),
            m.action() == Action::Trace,
    {
        let mut counts: Vec<usize> = Vec::new();
        let mut j: usize = 0;
        while j < ROUNDS
            invariant
                j <= ROUNDS,
                draws@.len() == ROUNDS,
                counts@ == round_counts(draws@).take(j as int),
            decreases ROUNDS - j,
        {
            counts.push(iterations_for(draws[j]));
            j = j + 1;
            assert(counts@ =~= round_counts(draws@).take(j as int));
        }
        assert(counts@ =~= round_counts(draws@));
        let first = counts[0];
        let m = MultiCheck { counts, round: 0, left: first, current: Round::new(), stopped: false };
        assert(m.counts@.take(0) =~= Seq::<usize>::empty());
        proof {
            m.lemma_passed_bound();
        }
        m
    }

    /// What the caller must do next.
    pub fn next_action(&self) -> (a: Action)
        requires
            self.shape_ok(),
        ensures
            a == self.action(),
    {
        proof {
            self.lemma_passed_bound();
        }
        if self.stopped {
            Action::Terminate
        } else if self.round == ROUNDS {
            Action::Done
        } else {
            Action::Trace
        }
    }

    /// Feeds in the raw result `raw` of the trace request that `next_action`
    /// asked for. The check is classified as by `check_once`; when it passes
    /// and closes a round, the round's offset is checked against the
    /// checksum of its values and the next round begins.
    pub fn feed(&mut self, aa: &mut Aa, raw: usize) -> (a: Action)
        requires
            old(self).wf(old(aa).sr@),
            old(self).action() == Action::Trace,
        ensures
            final(self).wf(final(aa).sr@),
            final(self).counts() == old(self).counts(),
            final(aa).sr == old(aa).sr,
            a == final(self).action(),
            step(old(aa).ptrace_state, raw == 0) is Some ==> {
                &&& final(aa).ptrace_state == step(old(aa).ptrace_state, raw == 0)->Some_0
                &&& final(aa).r@ == next_state(old(aa).r@)
                &&& final(self).passed() == old(self).passed() + 1
                &&& !final(self).stopped()
            },
            step(old(aa).ptrace_state, raw == 0) is None ==> {
                &&& final(aa).ptrace_state == old(aa).ptrace_state
                &&& final(aa).r == old(aa).r
                &&& final(self).passed() == old(self).passed()
                &&& final(self).stopped()
            },
    {
        proof {
            self.lemma_passed_bound();
        }
        let ghost old_passed = self.passed();
        let verdict = aa.round_step(&mut self.current, ptraceme(raw));
        if verdict == Verdict::Terminate {
            self.stopped = true;
            return Action::Terminate;
        }
        if self.left > 1 {
            self.left = self.left - 1;
        } else {
            let closing = aa.round_check(&self.current);
            assert(self.counts@.take(self.round + 1).drop_last() =~= self.counts@.take(
                self.round as int,
            ));
            if closing == Verdict::Terminate {
                self.stopped = true;
                return Action::Terminate;
            }
            self.round = self.round + 1;
            self.current = Round::new();
            if self.round < ROUNDS {
                self.left = self.counts[self.round];
            } else {
                self.left = 0;
            }
        }
        proof {
            self.lemma_passed_bound();
        }
        self.next_action()
    }
}

/// Each round of a multi-check makes between 2 and 5 checks, whatever the
/// build-time random words.
pub proof fn lemma_round_counts_bounds(draws: Seq<usize>)
    ensures
        forall|j: int|
            0 <= j < draws.len() ==> 2 <= #[trigger] round_counts(draws)[j] <= 5,
        2 * draws.len() <= total(round_counts(draws)) <= 5 * draws.len(),
    decreases draws.len(),
{
    if draws.len() > 0 {
        lemma_round_counts_bounds(draws.drop_last());
        assert(round_counts(draws).drop_last() =~= round_counts(draws.drop_last()));
    }
}

/// In a thread that no tracer holds, a multi-check passes all its checks: the
/// kernel's answers to the `total` requests it makes lead to no fatal step,
/// so each one that `feed` takes adds one to `passed` until the multi-check
/// is done.
pub proof fn lemma_untraced_multi_check_passes(s: PtraceState, draws: Seq<usize>)
    ensures
        run(s, untraced_answers(s.traceme_done, total(round_counts(draws)))) is Some,
{
    lemma_check_count(s, total(round_counts(draws)));
}

} // verus!
