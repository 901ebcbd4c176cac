use debugoff::{checksum, fold_in, iterations_for, Aa, Action, MultiCheck, Round, Verdict, ROUNDS};

const DENIED: usize = usize::MAX;

fn seeds() -> [u32; 10] {
    [1, 2, 3, 4, 5, 6, 7, 8, 9, 10]
}

#[test]
fn fold_in_exact_value() {
    assert_eq!(fold_in(0, 5, &seeds()), 105);
    assert_eq!(fold_in(7, 5, &seeds()), 112);
}

#[test]
fn fold_in_wraps() {
    assert_eq!(fold_in(0, u32::MAX, &[1; 10]), 0);
    assert_eq!(fold_in(u32::MAX, 0, &[0; 10]), u32::MAX);
}

#[test]
fn checksum_exact_values() {
    assert_eq!(checksum(&vec![], &seeds()), 0);
    assert_eq!(checksum(&vec![5], &seeds()), 105);
    assert_eq!(checksum(&vec![1, 2], &seeds()), 140);
    assert_eq!(checksum(&vec![u32::MAX], &[1; 10]), 0);
}

#[test]
fn offset_matches_checksum_for_each_length() {
    for len in [0usize, 1, 2, 3, 4, 5] {
        let mut aa = Aa::new(99, seeds());
        let mut round = Round::new();
        for i in 0..len {
            let raw = if i == 0 { 0 } else { DENIED };
            assert_eq!(aa.round_step(&mut round, debugoff::ptraceme(raw)), Verdict::Continue);
        }
        assert_eq!(round.v.len(), len);
        assert_eq!(checksum(&round.v, &aa.sr), round.offset);
        assert_eq!(aa.round_check(&round), Verdict::Continue);
    }
}

#[test]
fn round_check_detects_tampered_offset() {
    let mut aa = Aa::new(99, seeds());
    let mut round = Round::new();
    assert_eq!(aa.round_step(&mut round, Ok(())), Verdict::Continue);
    round.offset = round.offset.wrapping_add(1);
    assert_eq!(aa.round_check(&round), Verdict::Terminate);
}

#[test]
fn round_step_records_drawn_value() {
    let mut aa = Aa::new(0, seeds());
    let mut round = Round::new();
    assert_eq!(aa.round_step(&mut round, Ok(())), Verdict::Continue);
    assert_eq!(round.v, vec![3701687786]);
    assert_eq!(round.offset, fold_in(0, 3701687786, &seeds()));
    assert_eq!(aa.ptrace_state.traceme_ctr, 1);
}

#[test]
fn iterations_between_two_and_five() {
    assert_eq!(iterations_for(0), 2);
    assert_eq!(iterations_for(3), 5);
    assert_eq!(iterations_for(4), 2);
    assert_eq!(iterations_for(usize::MAX), 5);
}

fn draws() -> [usize; ROUNDS] {
    [0, 1, 2, 3, 4, 5, 6, 7, 8, 9, 10, 11, 12, 13, 14, 15]
}

#[test]
fn multi_check_without_tracer_completes() {
    let mut aa = Aa::new(1234, seeds());
    let mut m = MultiCheck::new(&draws());
    let expected: usize = draws().iter().map(|d| iterations_for(*d)).sum();
    let mut traces = 0usize;
    while m.next_action() == Action::Trace {
        let raw = if traces == 0 { 0 } else { DENIED };
        m.feed(&mut aa, raw);
        traces += 1;
    }
    assert_eq!(m.next_action(), Action::Done);
    assert_eq!(traces, expected);
    assert_eq!(expected, 56);
    assert_eq!(aa.ptrace_state.traceme_ctr, 56);
}

#[test]
fn multi_check_wrong_answer_stops() {
    for bad in [0usize, 1, 7, 55] {
        let mut aa = Aa::new(1234, seeds());
        let mut m = MultiCheck::new(&draws());
        let mut traces = 0usize;
        let mut last = Action::Trace;
        while m.next_action() == Action::Trace {
            let good = if traces == 0 { 0 } else { DENIED };
            let raw = if traces == bad { if good == 0 { DENIED } else { 0 } } else { good };
            last = m.feed(&mut aa, raw);
            traces += 1;
        }
        assert_eq!(last, Action::Terminate);
        assert_eq!(m.next_action(), Action::Terminate);
        assert_eq!(traces, bad + 1);
        assert_eq!(aa.ptrace_state.traceme_ctr, bad as u64);
    }
}
