use debugoff::{ptraceme, ptraceme_or_die, Aa, DebugOffErr, DebugOffErrType, PtraceState, Verdict};

const DENIED: usize = usize::MAX;

fn seeds() -> [u32; 10] {
    [11, 22, 33, 44, 55, 66, 77, 88, 99, 110]
}

#[test]
fn multiple_ptraceme_or_die() {
    let mut aa = Aa::new(7, seeds());
    for i in 0..10 {
        let raw = if i == 0 { 0 } else { DENIED };
        assert_eq!(ptraceme_or_die(&mut aa, raw), Verdict::Continue);
        println!("{}", i);
    }
    assert_eq!(10, aa.ptrace_state.traceme_ctr);
}

#[test]
fn multiple_threads_ptraceme_or_die() {
    let main = Aa::new(1, seeds());
    let tmp = main.ptrace_state.traceme_ctr;

    let mut threads: Vec<Aa> = (0..10).map(|i| Aa::new(i as u32, seeds())).collect();
    for aa in threads.iter_mut() {
        assert_eq!(ptraceme_or_die(aa, 0), Verdict::Continue);
    }
    for (i, aa) in threads.iter_mut().enumerate().rev() {
        println!("Thread #{}", i);
        assert_eq!(ptraceme_or_die(aa, DENIED), Verdict::Continue);
    }
    for aa in threads.iter() {
        assert_eq!(2, aa.ptrace_state.traceme_ctr);
    }

    assert_eq!(tmp, main.ptrace_state.traceme_ctr);
    println!("END");
}

#[test]
fn first_and_second_call_pass_without_tracer() {
    let mut aa = Aa::new(3, seeds());
    assert_eq!(ptraceme_or_die(&mut aa, 0), Verdict::Continue);
    assert!(aa.ptrace_state.traceme_done);
    assert_eq!(ptraceme_or_die(&mut aa, DENIED), Verdict::Continue);
    assert_eq!(aa.ptrace_state.traceme_ctr, 2);
}

#[test]
fn tracer_from_the_start_is_fatal() {
    let mut aa = Aa::new(3, seeds());
    assert_eq!(ptraceme_or_die(&mut aa, DENIED), Verdict::Terminate);
    assert_eq!(aa.ptrace_state, PtraceState { traceme_done: false, traceme_ctr: 0 });
}

#[test]
fn check_once_scenario_second_success_is_fatal() {
    let mut aa = Aa::new(5, seeds());
    assert_eq!(aa.check_once(Ok(())), Verdict::Continue);
    assert!(aa.ptrace_state.traceme_done);
    assert_eq!(aa.ptrace_state.traceme_ctr, 1);
    assert_eq!(aa.check_once(Ok(())), Verdict::Terminate);
    assert_eq!(aa.ptrace_state.traceme_ctr, 1);
}

#[test]
fn check_count_saturates() {
    let mut aa = Aa::new(5, seeds());
    aa.ptrace_state = PtraceState { traceme_done: true, traceme_ctr: u64::MAX - 1 };
    let denied = Err(DebugOffErr { err_type: DebugOffErrType::AlreadyTraced });
    assert_eq!(aa.check_once(denied), Verdict::Continue);
    assert_eq!(aa.ptrace_state.traceme_ctr, u64::MAX);
    assert_eq!(aa.check_once(denied), Verdict::Continue);
    assert_eq!(aa.ptrace_state.traceme_ctr, u64::MAX);
}

#[test]
fn raw_result_interpretation() {
    assert_eq!(ptraceme(0), Ok(()));
    let err = DebugOffErr { err_type: DebugOffErrType::AlreadyTraced };
    assert_eq!(ptraceme(1), Err(err));
    assert_eq!(ptraceme(DENIED), Err(err));
}

#[test]
fn error_message() {
    let err = DebugOffErr { err_type: DebugOffErrType::AlreadyTraced };
    assert_eq!(err.message(), "Error: AlreadyTraced");
}
