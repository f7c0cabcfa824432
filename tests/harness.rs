use kattis_init::harness::{judge, Action, Failure, Harness, RunOutcome, Verdict};

fn ok_run(stdout: &str) -> RunOutcome {
    RunOutcome { success: true, stdout: stdout.to_string(), stderr: String::new() }
}

#[test]
fn trimmed_equal_output_passes() {
    assert_eq!(judge(&ok_run("3"), &Some("3\n".to_string())), Verdict::Passed);
    assert_eq!(judge(&ok_run("  3\n"), &Some("3".to_string())), Verdict::Passed);
}

#[test]
fn different_output_mismatches() {
    assert_eq!(
        judge(&ok_run("3\n"), &Some("4".to_string())),
        Verdict::Failed(Failure::OutputMismatch)
    );
}

#[test]
fn missing_expected_output_reads_as_empty() {
    assert_eq!(judge(&ok_run(" \n"), &None), Verdict::Passed);
    assert_eq!(judge(&ok_run("x"), &None), Verdict::Failed(Failure::OutputMismatch));
}

#[test]
fn failed_run_reports_standard_error() {
    let run = RunOutcome { success: false, stdout: "3".to_string(), stderr: "boom".to_string() };
    assert_eq!(
        judge(&run, &Some("3".to_string())),
        Verdict::Failed(Failure::RuntimeFailure("boom".to_string()))
    );
}

#[test]
fn no_first_input_gives_no_verdicts() {
    let mut h = Harness::new();
    assert_eq!(h.next_action(), Action::Probe(0));
    h.input_missing();
    assert_eq!(h.next_action(), Action::Finished);
    assert!(h.verdicts().is_empty());
}

/// Drives the harness over files given by index, stopping at the first
/// missing input, with a program that echoes the sum of its input numbers.
fn drive(inputs: &[Option<&str>], outputs: &[Option<&str>]) -> Vec<(usize, Verdict)> {
    let mut h = Harness::new();
    loop {
        match h.next_action() {
            Action::Finished => break,
            Action::Probe(i) => match inputs.get(i).copied().flatten() {
                None => h.input_missing(),
                Some(input) => {
                    let sum: i64 = input.split_whitespace().map(|t| t.parse::<i64>().unwrap()).sum();
                    let run = ok_run(&format!("{}\n", sum));
                    let expected = outputs.get(i).copied().flatten().map(|s| s.to_string());
                    h.record(&run, &expected);
                }
            },
        }
    }
    h.verdicts().iter().map(|(i, v)| (*i, copy_verdict(v))).collect()
}

fn copy_verdict(v: &Verdict) -> Verdict {
    match v {
        Verdict::Passed => Verdict::Passed,
        Verdict::Failed(Failure::OutputMismatch) => Verdict::Failed(Failure::OutputMismatch),
        Verdict::Failed(Failure::RuntimeFailure(e)) => Verdict::Failed(Failure::RuntimeFailure(e.clone())),
    }
}

#[test]
fn gap_ends_the_suite() {
    let inputs = [Some("1 2"), None, Some("5 5")];
    let outputs = [Some("3\n"), None, Some("10")];
    let v = drive(&inputs, &outputs);
    assert_eq!(v, vec![(0, Verdict::Passed)]);
}

#[test]
fn every_case_runs_after_a_failure() {
    let inputs = [Some("1\n2\n"), Some("1 1"), Some("2 2")];
    let outputs = [Some("4"), Some("2"), None];
    let v = drive(&inputs, &outputs);
    assert_eq!(
        v,
        vec![
            (0, Verdict::Failed(Failure::OutputMismatch)),
            (1, Verdict::Passed),
            (2, Verdict::Failed(Failure::OutputMismatch)),
        ]
    );
}

#[test]
fn repeated_runs_agree() {
    let inputs = [Some("1 2"), Some("3 4")];
    let outputs = [Some("3"), Some("8")];
    assert_eq!(drive(&inputs, &outputs), drive(&inputs, &outputs));
}

#[test]
fn sum_scenario_passes_and_mismatches() {
    let pass = drive(&[Some("1\n2\n")], &[Some("3\n")]);
    assert_eq!(pass, vec![(0, Verdict::Passed)]);
    let fail = drive(&[Some("1\n2\n")], &[Some("4")]);
    assert_eq!(fail, vec![(0, Verdict::Failed(Failure::OutputMismatch))]);
}
