use crate::checksum::SRSIZE;
use crate::error::{DebugOffErr, DebugOffErrType};
use crate::rand::{seeded_state, Rand};
use vstd::prelude::*;

verus! {

/// What the caller must do after a check.
#[derive(Debug, Clone, Copy, PartialEq, Eq, Structural)]
pub enum Verdict {
    /// The kernel answered as expected: carry on.
    Continue,
    /// The answer betrays a debugger or tampering: end the process now.
    Terminate,
}

/// Where a thread stands in the trace-request protocol.
#[derive(Debug, Clone, Copy, PartialEq, Eq, Structural)]
pub struct PtraceState {
    /// Whether this thread's first, successful, trace request has been seen.
    pub traceme_done: bool,
    /// How many checks passed in this thread, saturating at `u64::MAX`.
    pub traceme_ctr: u64,
}

/// `c + 1`, held at `u64::MAX`.
pub open spec fn saturating_inc(c: u64) -> u64 {
    if c == u64::MAX {
        c
    } else {
        (c + 1) as u64
    }
}

/// The answer the kernel owes a thread with no tracer: success on the first
/// request only.
pub open spec fn expected_success(s: PtraceState) -> bool {
    !s.traceme_done
}

/// One single check: the state that follows when the request succeeded
/// (`success`) or failed, or `None` when the answer is fatal.
pub open spec fn step(s: PtraceState, success: bool) -> Option<PtraceState> {
    if success == expected_success(s) {
        Some(PtraceState { traceme_done: true, traceme_ctr: saturating_inc(s.traceme_ctr) })
    } else {
        None
    }
}

/// The state of one thread: its protocol state, its generator and the seed
/// table that salts the checksums.
#[derive(Debug)]
pub struct Aa {
    pub ptrace_state: PtraceState,
    pub r: Rand,
    pub sr: [u32; SRSIZE],
}

impl Aa {
    /// A fresh thread state, with the generator seeded by `seed` and the
    /// seed table `sr`.
    pub fn new(seed: u32, sr: [u32; SRSIZE]) -> (aa: Aa)
        ensures
            aa.ptrace_state == (PtraceState { traceme_done: false, traceme_ctr: 0 }),
            aa.r@ == seeded_state(seed),
            aa.sr@ == sr@,
    {
        Aa {
            ptrace_state: PtraceState { traceme_done: false, traceme_ctr: 0 },
            r: Rand::new(seed),
            sr,
        }
    }

    /// Classifies the outcome `res` of a trace request against this thread's
    /// state. A first success arms the state; a failure before it, or a
    /// second success, is fatal. Every check that passes is counted.
    pub fn check_once(&mut self, res: Result<(), DebugOffErr>) -> (v: Verdict)
        ensures
            step(old(self).ptrace_state, res is Ok) is Some <==> v == Verdict::Continue,
            v == Verdict::Continue ==> final(self).ptrace_state == step(
                old(self).ptrace_state,
                res is Ok,
            )->Some_0,
            v == Verdict::Terminate ==> final(self).ptrace_state == old(self).ptrace_state,
            final(self).r == old(self).r,
            final(self).sr == old(self).sr,
    {
        let success = res.is_ok();
        if success != !self.ptrace_state.traceme_done {
            return Verdict::Terminate;
        }
        self.ptrace_state.traceme_done = true;
        self.ptrace_state.traceme_ctr = self.ptrace_state.traceme_ctr.saturating_add(1);
        Verdict::Continue
    }
}

/// Interprets the raw result of a trace request: zero is success, anything
/// else means a tracer already holds the thread.
pub fn ptraceme(raw: usize) -> (res: Result<(), DebugOffErr>)
    ensures
        res is Ok <==> raw == 0,
        res is Err ==> res->Err_0 == (DebugOffErr { err_type: DebugOffErrType::AlreadyTraced }),
{
    if raw == 0 {
        Ok(())
    } else {
        Err(DebugOffErr { err_type: DebugOffErrType::AlreadyTraced })
    }
}

/// One single check of the thread `aa`, given the raw result `raw` of its
/// trace request.
pub fn ptraceme_or_die(aa: &mut Aa, raw: usize) -> (v: Verdict)
    ensures
        step(old(aa).ptrace_state, raw == 0) is Some <==> v == Verdict::Continue,
        v == Verdict::Continue ==> final(aa).ptrace_state == step(
            old(aa).ptrace_state,
            raw == 0,
        )->Some_0,
        v == Verdict::Terminate ==> final(aa).ptrace_state == old(aa).ptrace_state,
        final(aa).r == old(aa).r,
        final(aa).sr == old(aa).sr,
{
    aa.check_once(ptraceme(raw))
}

} // verus!
