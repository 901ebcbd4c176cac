use crate::state::{expected_success, step, PtraceState};
use vstd::prelude::*;

verus! {

/// The kernel's answers to `n` trace requests from a thread that no tracer
/// holds, when the thread's first request has (`done`) or has not been seen
/// yet: success on the very first request only.
pub open spec fn untraced_answers(done: bool, n: nat) -> Seq<bool> {
    Seq::new(n, |i: int| i == 0 && !done)
}

/// The state after a series of single checks whose requests got `answers`,
/// in order; `None` once one of them is fatal.
pub open spec fn run(s: PtraceState, answers: Seq<bool>) -> Option<PtraceState>
    decreases answers.len(),
{
    if answers.len() == 0 {
        Some(s)
    } else {
        match run(s, answers.drop_last()) {
            Some(t) => step(t, answers.last()),
            None => None,
        }
    }
}

/// `c + n`, held at `u64::MAX`.
pub open spec fn saturating_add(c: u64, n: nat) -> u64 {
    if c + n > u64::MAX {
        u64::MAX
    } else {
        (c + n) as u64
    }
}

/// In a thread that no tracer holds, the first check passes and arms the
/// state, and a second check passes too; a thread held by a tracer from the
/// start fails its first check.
pub proof fn lemma_first_and_second_check(c: u64)
    ensures
        ({
            let fresh = PtraceState { traceme_done: false, traceme_ctr: c };
            &&& step(fresh, true) is Some
            &&& step(fresh, true)->Some_0.traceme_done
            &&& step(step(fresh, true)->Some_0, false) is Some
            &&& step(fresh, false) is None
        }),
{
}

/// Checks that all get the answers of an untraced thread all pass, and each
/// adds one to the count, which saturates at `u64::MAX` and never wraps.
pub proof fn lemma_check_count(s: PtraceState, n: nat)
    ensures
        run(s, untraced_answers(s.traceme_done, n)) == Some(
            PtraceState {
                traceme_done: s.traceme_done || n > 0,
                traceme_ctr: saturating_add(s.traceme_ctr, n),
            },
        ),
    decreases n,
{
    if n > 0 {
        let answers = untraced_answers(s.traceme_done, n);
        assert(answers.drop_last() =~= untraced_answers(s.traceme_done, (n - 1) as nat));
        lemma_check_count(s, (n - 1) as nat);
    }
}

/// From a fresh thread state, `n` checks with no tracer present leave the
/// count at exactly `n`, or at `u64::MAX` past it.
pub proof fn lemma_fresh_count(n: nat)
    ensures
        run(PtraceState { traceme_done: false, traceme_ctr: 0 }, untraced_answers(false, n))
            == Some(
            PtraceState {
                traceme_done: n > 0,
                traceme_ctr: if n > u64::MAX {
                    u64::MAX
                } else {
                    n as u64
                },
            },
        ),
{
    lemma_check_count(PtraceState { traceme_done: false, traceme_ctr: 0 }, n);
}

proof fn lemma_fatal_stays_fatal(s: PtraceState, answers: Seq<bool>, j: int)
    requires
        0 <= j <= answers.len(),
        run(s, answers.take(j)) is None,
    ensures
        run(s, answers) is None,
    decreases answers.len() - j,
{
    if j < answers.len() {
        assert(answers.take(j + 1).drop_last() =~= answers.take(j));
        lemma_fatal_stays_fatal(s, answers, j + 1);
    } else {
        assert(answers.take(j) =~= answers);
    }
}

/// When a single answer among those of an untraced thread is wrong, at
/// index `k`, every check before it passes, the check at `k` is fatal, and
/// no series of checks that includes it passes.
pub proof fn lemma_wrong_answer_is_fatal(s: PtraceState, answers: Seq<bool>, k: int)
    requires
        0 <= k < answers.len(),
        answers[k] != untraced_answers(s.traceme_done, answers.len())[k],
        forall|i: int|
            0 <= i < answers.len() && i != k ==> answers[i] == untraced_answers(
                s.traceme_done,
                answers.len(),
            )[i],
    ensures
        run(s, answers.take(k)) is Some,
        run(s, answers.take(k + 1)) is None,
        forall|j: int| k < j <= answers.len() ==> (#[trigger] run(s, answers.take(j))) is None,
{
    assert(answers.take(k) =~= untraced_answers(s.traceme_done, k as nat));
    lemma_check_count(s, k as nat);
    let t = run(s, answers.take(k))->Some_0;
    assert(expected_success(t) == (k == 0 && !s.traceme_done));
    assert(answers.take(k + 1).drop_last() =~= answers.take(k));
    assert forall|j: int| k < j <= answers.len() implies (#[trigger] run(s, answers.take(j))) is None by {
        assert(answers.take(j).take(k + 1) =~= answers.take(k + 1));
        lemma_fatal_stays_fatal(s, answers.take(j), k + 1);
    }
}

} // verus!
