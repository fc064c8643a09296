use coord_kernel::errors::KernelError;
use coord_kernel::sequencer::FiniteStateSequencer;
use coord_kernel::sequencer::Slot;
use coord_kernel::sequencer::STEP_A;
use coord_kernel::sequencer::STEP_B;
use coord_kernel::sequencer::STEP_C;
use coord_kernel::sequencer::STEP_D;
use coord_kernel::sequencer::STEP_E;

fn run(s: &mut FiniteStateSequencer, n: usize) -> Vec<usize> {
    let mut out = Vec::new();
    for _ in 0..n {
        out.push(s.advance());
    }
    out
}

#[test]
fn empty_pattern_is_rejected() {
    let r = FiniteStateSequencer::new(5, Vec::new());
    assert_eq!(r.err(), Some(KernelError::EmptyPattern));
}

#[test]
fn out_of_range_step_is_rejected() {
    let r = FiniteStateSequencer::new(2, vec![Slot::Fixed(0), Slot::Fixed(2)]);
    assert_eq!(r.err(), Some(KernelError::StepOutOfRange));
    let r = FiniteStateSequencer::new(3, vec![Slot::Alternating(1, 3)]);
    assert_eq!(r.err(), Some(KernelError::StepOutOfRange));
}

#[test]
fn case_a_cycles_abcde() {
    let mut s = FiniteStateSequencer::case_a();
    let got = run(&mut s, 10);
    assert_eq!(
        got,
        vec![STEP_A, STEP_B, STEP_C, STEP_D, STEP_E, STEP_A, STEP_B, STEP_C, STEP_D, STEP_E]
    );
}

#[test]
fn case_b_cycles_acdbe() {
    // the original drives this pattern as A, C, B, D, E
    let mut s = FiniteStateSequencer::case_b();
    let got = run(&mut s, 10);
    assert_eq!(
        got,
        vec![STEP_A, STEP_C, STEP_B, STEP_D, STEP_E, STEP_A, STEP_C, STEP_B, STEP_D, STEP_E]
    );
}

#[test]
fn case_c_alternates_the_leading_choice() {
    let mut s = FiniteStateSequencer::case_c();
    let got = run(&mut s, 8);
    assert_eq!(got, vec![STEP_A, STEP_C, STEP_D, STEP_E, STEP_B, STEP_C, STEP_D, STEP_E]);
}

#[test]
fn case_d_alternates_choices_across_the_run() {
    // cycle shape (A|B), C, E, (A|B), (A|B), D, E with the choices going
    // strictly A, B, A, B, ... over the whole run
    let mut s = FiniteStateSequencer::case_d();
    let got = run(&mut s, 14);
    assert_eq!(
        got,
        vec![
            STEP_A, STEP_C, STEP_E, STEP_B, STEP_A, STEP_D, STEP_E, STEP_B, STEP_C, STEP_E,
            STEP_A, STEP_B, STEP_D, STEP_E
        ]
    );
}

#[test]
fn only_the_armed_step_can_run() {
    let mut s = FiniteStateSequencer::case_a();
    assert!(s.is_armed(STEP_A));
    assert!(!s.is_armed(STEP_B));
    // steps out of order are refused and change nothing
    assert!(!s.try_run_step(STEP_C));
    assert!(!s.try_run_step(STEP_E));
    assert!(s.try_run_step(STEP_A));
    assert!(s.is_armed(STEP_B));
    assert!(!s.try_run_step(STEP_A));
    assert!(s.try_run_step(STEP_B));
    assert_eq!(s.steps(), 5);
}
