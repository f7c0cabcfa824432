//! The test harness: judging one run of a candidate program against its
//! expected output, and the state machine that walks the numbered test cases.
//! The caller performs each action (reading the files of a test case, running
//! the program) and reports what happened.
use vstd::prelude::*;
use crate::text::{trim, trim_ws};

verus! {

/// What a run of the candidate program produced.
pub struct RunOutcome {
    pub success: bool,
    pub stdout: String,
    pub stderr: String,
}

/// Why a test case failed.
#[derive(Debug, PartialEq, Eq)]
pub enum Failure {
    /// The program exited unsuccessfully; the detail is its standard error.
    RuntimeFailure(String),
    /// The trimmed output differs from the trimmed expected output.
    OutputMismatch,
}

/// The outcome of one test case.
#[derive(Debug, PartialEq, Eq)]
pub enum Verdict {
    Passed,
    Failed(Failure),
}

/// What the harness asks its caller to do next.
#[derive(Clone, Copy, Debug, PartialEq, Eq, Structural)]
pub enum Action {
    /// Look for the input of this test case and, when it is there, run the
    /// program on it.
    Probe(usize),
    /// The suite is over.
    Finished,
}

/// The text of an expected-output file; a missing file reads as empty.
pub open spec fn expected_text(expected: Option<String>) -> Seq<char> {
    match expected {
        Some(s) => s@,
        None => Seq::empty(),
    }
}

/// The verdict on a run, given the content of the expected-output file.
pub open spec fn judge_spec(run: RunOutcome, expected: Option<String>) -> Verdict {
    if !run.success {
        Verdict::Failed(Failure::RuntimeFailure(run.stderr))
    } else if trim_ws(run.stdout@) == trim_ws(expected_text(expected)) {
        Verdict::Passed
    } else {
        Verdict::Failed(Failure::OutputMismatch)
    }
}

/// Judges a run: a failed run fails with its standard error; otherwise the
/// test passes exactly when the trimmed output equals the trimmed expected output.
pub fn judge(run: &RunOutcome, expected: &Option<String>) -> (r: Verdict)
    ensures
        r == judge_spec(*run, *expected),
{
    if !run.success {
        Verdict::Failed(Failure::RuntimeFailure(run.stderr.clone()))
    } else {
        let theirs = match expected {
            Some(s) => trim(s.as_str()),
            None => String::new(),
        };
        proof {
            assert(trim_ws(Seq::<char>::empty()) == Seq::<char>::empty());
        }
        let ours = trim(run.stdout.as_str());
        if theirs == ours {
            Verdict::Passed
        } else {
            Verdict::Failed(Failure::OutputMismatch)
        }
    }
}

fn copy_verdict(v: &Verdict) -> (r: Verdict)
    ensures
        r == *v,
{
    match v {
        Verdict::Passed => Verdict::Passed,
        Verdict::Failed(Failure::RuntimeFailure(e)) => Verdict::Failed(Failure::RuntimeFailure(e.clone())),
        Verdict::Failed(Failure::OutputMismatch) => Verdict::Failed(Failure::OutputMismatch),
    }
}

/// The harness's state: the index of the next test case, whether the suite
/// has ended, and the verdicts so far (the k-th for test case k).
pub struct HarnessModel {
    pub next: nat,
    pub finished: bool,
    pub verdicts: Seq<Verdict>,
}

/// No test case judged yet; the first one is due.
pub open spec fn initial_model() -> HarnessModel {
    HarnessModel { next: 0, finished: false, verdicts: Seq::empty() }
}

/// What the harness asks for in a state.
pub open spec fn next_action_spec(h: HarnessModel) -> Action {
    if h.finished {
        Action::Finished
    } else {
        Action::Probe(h.next as usize)
    }
}

/// The input of the current test case is missing: the suite ends.
pub open spec fn missing_spec(h: HarnessModel) -> HarnessModel {
    HarnessModel { finished: true, ..h }
}

/// The current test case ran: its verdict is recorded and the next one is due.
pub open spec fn record_spec(h: HarnessModel, run: RunOutcome, expected: Option<String>) -> HarnessModel {
    HarnessModel {
        next: h.next + 1,
        verdicts: h.verdicts.push(judge_spec(run, expected)),
        ..h
    }
}

/// The harness: walks the test cases from index 0 until the first missing
/// input, keeping one verdict per test case.
pub struct Harness {
    next: usize,
    finished: bool,
    verdicts: Vec<(usize, Verdict)>,
}

impl View for Harness {
    type V = HarnessModel;

    closed spec fn view(&self) -> HarnessModel {
        HarnessModel {
            next: self.next as nat,
            finished: self.finished,
            verdicts: self.verdicts@.map_values(|p: (usize, Verdict)| p.1),
        }
    }
}

impl Harness {
    /// One verdict per test case before the next one, each tagged with its index.
    pub closed spec fn wf(&self) -> bool {
        &&& self.verdicts@.len() == self.next
        &&& forall|k: int| 0 <= k < self.verdicts@.len() ==> #[trigger] self.verdicts@[k].0 == k
    }

    pub fn new() -> (r: Harness)
        ensures
            r.wf(),
            r@ == initial_model(),
    {
        let r = Harness { next: 0, finished: false, verdicts: Vec::new() };
        proof {
            assert(r@.verdicts =~= Seq::<Verdict>::empty());
        }
        r
    }

    pub fn next_action(&self) -> (r: Action)
        ensures
            r == next_action_spec(self@),
    {
        if self.finished {
            Action::Finished
        } else {
            Action::Probe(self.next)
        }
    }

    /// Reports that the input file of the current test case does not exist.
    pub fn input_missing(&mut self)
        requires
            old(self).wf(),
        ensures
            final(self).wf(),
            final(self)@ == missing_spec(old(self)@),
    {
        self.finished = true;
    }

    /// Reports the run of the current test case and the content of its
    /// expected-output file, if any; returns the verdict.
    pub fn record(&mut self, run: &RunOutcome, expected: &Option<String>) -> (r: Verdict)
        requires
            old(self).wf(),
            !old(self)@.finished,
            old(self)@.next < usize::MAX,
        ensures
            final(self).wf(),
            r == judge_spec(*run, *expected),
            final(self)@ == record_spec(old(self)@, *run, *expected),
    {
        let v = judge(run, expected);
        self.verdicts.push((self.next, copy_verdict(&v)));
        self.next = self.next + 1;
        proof {
            assert(self@.verdicts =~= old(self)@.verdicts.push(v));
        }
        v
    }

    /// The verdicts so far, each with the index of its test case.
    pub fn verdicts(&self) -> (r: &Vec<(usize, Verdict)>)
        ensures
            r@.map_values(|p: (usize, Verdict)| p.1) == self@.verdicts,
            self.wf() ==> forall|k: int| 0 <= k < r@.len() ==> #[trigger] r@[k].0 == k,
    {
        &self.verdicts
    }
}

/// The harness driven for at most `fuel` steps over a suite of files: `inputs`
/// gives the content of the input file of each index, if it exists, `outputs`
/// that of the expected-output file, and `program` the outcome of a run of a
/// deterministic candidate program on an input.
pub open spec fn drive(
    h: HarnessModel,
    inputs: spec_fn(nat) -> Option<Seq<char>>,
    outputs: spec_fn(nat) -> Option<String>,
    program: spec_fn(Seq<char>) -> RunOutcome,
    fuel: nat,
) -> HarnessModel
    decreases fuel,
{
    if h.finished || fuel == 0 {
        h
    } else {
        match inputs(h.next) {
            None => drive(missing_spec(h), inputs, outputs, program, (fuel - 1) as nat),
            Some(input) => drive(
                record_spec(h, program(input), outputs(h.next)),
                inputs,
                outputs,
                program,
                (fuel - 1) as nat,
            ),
        }
    }
}

/// The verdicts of the first `n` test cases of a suite.
pub open spec fn suite_verdicts(
    inputs: spec_fn(nat) -> Option<Seq<char>>,
    outputs: spec_fn(nat) -> Option<String>,
    program: spec_fn(Seq<char>) -> RunOutcome,
    n: nat,
) -> Seq<Verdict> {
    Seq::new(n, |k: int| judge_spec(program(inputs(k as nat)->Some_0), outputs(k as nat)))
}

proof fn lemma_drive_from(
    inputs: spec_fn(nat) -> Option<Seq<char>>,
    outputs: spec_fn(nat) -> Option<String>,
    program: spec_fn(Seq<char>) -> RunOutcome,
    n: nat,
    j: nat,
    fuel: nat,
)
    requires
        j <= n,
        fuel > n - j,
        forall|k: nat| k < n ==> #[trigger] inputs(k) is Some,
        inputs(n) is None,
    ensures
        drive(
            HarnessModel {
                next: j,
                finished: false,
                verdicts: suite_verdicts(inputs, outputs, program, j),
            },
            inputs,
            outputs,
            program,
            fuel,
        ) == (HarnessModel {
            next: n,
            finished: true,
            verdicts: suite_verdicts(inputs, outputs, program, n),
        }),
    decreases n - j,
{
    let h = HarnessModel {
        next: j,
        finished: false,
        verdicts: suite_verdicts(inputs, outputs, program, j),
    };
    if j == n {
        assert(drive(missing_spec(h), inputs, outputs, program, (fuel - 1) as nat) == missing_spec(
            h,
        ));
    } else {
        assert(inputs(j) is Some);
        let h1 = record_spec(h, program(inputs(j)->Some_0), outputs(j));
        assert(h1.verdicts =~= suite_verdicts(inputs, outputs, program, j + 1));
        lemma_drive_from(inputs, outputs, program, n, j + 1, (fuel - 1) as nat);
    }
}

/// Over a suite whose input files exist for the indices below `n` and not for
/// `n`, the harness judges exactly the test cases `0..n`, in order, and then
/// finishes: files past the first gap are never read, and however long it is
/// driven, the same files and program always give the same verdicts.
pub proof fn law_harness_runs_to_first_gap(
    inputs: spec_fn(nat) -> Option<Seq<char>>,
    outputs: spec_fn(nat) -> Option<String>,
    program: spec_fn(Seq<char>) -> RunOutcome,
    n: nat,
    fuel: nat,
)
    requires
        forall|k: nat| k < n ==> #[trigger] inputs(k) is Some,
        inputs(n) is None,
        fuel > n,
    ensures
        drive(initial_model(), inputs, outputs, program, fuel) == (HarnessModel {
            next: n,
            finished: true,
            verdicts: suite_verdicts(inputs, outputs, program, n),
        }),
{
    assert(initial_model().verdicts =~= suite_verdicts(inputs, outputs, program, 0));
    lemma_drive_from(inputs, outputs, program, n, 0, fuel);
}

} // verus!
