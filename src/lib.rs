//! The diagnostic I/O layer of a small kernel: a text-mode console, a serial
//! log channel, and a test harness that reports its result to the host
//! through an exit code.
use vstd::prelude::*;

pub mod vga;
pub mod vga_lemmas;
pub mod panic_handler;
pub mod uart;
pub mod sync;

use crate::panic_handler::OSExitCode;

verus! {

/// A registered test: a name and a procedure that passes or fails with a
/// message. `spec_passes` says whether the procedure passes and
/// `spec_name` what the test is called; every implementation's `run` and
/// `name` are held to them.
pub trait Testable {
    spec fn spec_passes(&self) -> bool;

    spec fn spec_name(&self) -> String;

    fn name(&self) -> (r: String)
        ensures
            r@ == self.spec_name()@,
    ;

    fn run(&self) -> (r: Result<(), String>)
        ensures
            r is Ok <==> self.spec_passes(),
    ;
}

/// One report of the harness, as a value.
pub enum ReportEvent {
    Starting(nat),
    Running(Seq<char>),
    Passed,
    Failed(Seq<char>),
}

/// Where the harness reports its progress (the serial line, in a kernel).
/// `reported` is what has been reported so far, in order; each report adds
/// one to it.
pub trait TestReporter {
    spec fn reported(&self) -> Vec<Report>;

    /// The run starts with `count` registered tests.
    fn starting(&mut self, count: usize)
        ensures
            report_events(final(self).reported()) == report_events(old(self).reported()).push(ReportEvent::Starting(count as nat)),
    ;

    /// The test called `name` is about to run.
    fn running(&mut self, name: &str)
        ensures
            report_events(final(self).reported()) == report_events(old(self).reported()).push(ReportEvent::Running(name@)),
    ;

    /// The test that was running passed.
    fn passed(&mut self)
        ensures
            report_events(final(self).reported()) == report_events(old(self).reported()).push(ReportEvent::Passed),
    ;

    /// The test that was running failed with `message`.
    fn failed(&mut self, message: &str)
        ensures
            report_events(final(self).reported()) == report_events(old(self).reported()).push(ReportEvent::Failed(message@)),
    ;
}

/// One report of the harness, kept in memory.
#[derive(Debug, Clone, PartialEq, Eq)]
pub enum Report {
    Starting(usize),
    Running(String),
    Passed,
    Failed(String),
}

impl View for Report {
    type V = ReportEvent;

    open spec fn view(&self) -> ReportEvent {
        match self {
            Report::Starting(n) => ReportEvent::Starting(*n as nat),
            Report::Running(name) => ReportEvent::Running(name@),
            Report::Passed => ReportEvent::Passed,
            Report::Failed(message) => ReportEvent::Failed(message@),
        }
    }
}

/// The reports of a log, as values.
pub open spec fn report_events(log: Vec<Report>) -> Seq<ReportEvent> {
    log@.map_values(|r: Report| r@)
}

/// A reporter that keeps every report, in order.
pub struct ReportLog {
    pub reports: Vec<Report>,
}

impl ReportLog {
    /// A log with nothing reported yet.
    pub fn new() -> (r: ReportLog)
        ensures
            report_events(r.reported()) == Seq::<ReportEvent>::empty(),
    {
        let r = ReportLog { reports: Vec::new() };
        assert(report_events(r.reported()) =~= Seq::<ReportEvent>::empty());
        r
    }

    fn add(&mut self, report: Report)
        ensures
            report_events(final(self).reported()) == report_events(old(self).reported()).push(report@),
    {
        self.reports.push(report);
        assert(report_events(self.reported()) =~= report_events(old(self).reported()).push(
            report@,
        ));
    }
}

impl TestReporter for ReportLog {
    open spec fn reported(&self) -> Vec<Report> {
        self.reports
    }

    fn starting(&mut self, count: usize) {
        self.add(Report::Starting(count));
    }

    fn running(&mut self, name: &str) {
        self.add(Report::Running(name.to_owned()));
    }

    fn passed(&mut self) {
        self.add(Report::Passed);
    }

    fn failed(&mut self, message: &str) {
        self.add(Report::Failed(message.to_owned()));
    }
}

/// What the harness reports for the first `k` tests when each of them
/// passed: its name, then the pass mark.
pub open spec fn passed_reports<T: Testable>(tests: Seq<T>, k: nat) -> Seq<ReportEvent>
    decreases k,
{
    if k == 0 {
        Seq::empty()
    } else {
        passed_reports(tests, (k - 1) as nat) + seq![
            ReportEvent::Running(tests[k - 1].spec_name()@),
            ReportEvent::Passed,
        ]
    }
}

/// The harness: idle, running the test at an index, or finished, with every
/// test passed or aborted at the test that failed.
#[derive(Debug, Clone, Copy, PartialEq, Eq, Structural)]
pub enum HarnessState {
    Idle,
    Running(usize),
    AllPassed,
    Aborted(usize),
}

/// The state when a run of `count` tests starts.
pub open spec fn spec_begin(count: nat) -> HarnessState {
    if count == 0 {
        HarnessState::AllPassed
    } else {
        HarnessState::Running(0)
    }
}

/// The state after the running test of `count` passed or failed; other
/// states do not move.
pub open spec fn spec_record(state: HarnessState, count: nat, passed: bool) -> HarnessState {
    match state {
        HarnessState::Running(i) => if !passed {
            HarnessState::Aborted(i)
        } else if i + 1 >= count {
            HarnessState::AllPassed
        } else {
            HarnessState::Running((i + 1) as usize)
        },
        _ => state,
    }
}

/// The state after the outcomes of the tests that ran, in order.
pub open spec fn run_state(count: nat, outcomes: Seq<bool>) -> HarnessState
    decreases outcomes.len(),
{
    if outcomes.len() == 0 {
        spec_begin(count)
    } else {
        spec_record(run_state(count, outcomes.drop_last()), count, outcomes.last())
    }
}

/// The exit code of a finished run.
pub open spec fn spec_exit_code(state: HarnessState) -> OSExitCode {
    match state {
        HarnessState::AllPassed => OSExitCode::Success,
        _ => OSExitCode::Fail,
    }
}

impl HarnessState {
    /// Leaves the idle state for a run of `count` tests.
    pub fn begin(self, count: usize) -> (r: HarnessState)
        requires
            self == HarnessState::Idle,
        ensures
            r == spec_begin(count as nat),
    {
        if count == 0 {
            HarnessState::AllPassed
        } else {
            HarnessState::Running(0)
        }
    }

    /// Records whether the running test passed.
    pub fn record(self, count: usize, passed: bool) -> (r: HarnessState)
        requires
            self matches HarnessState::Running(i) && i < count,
        ensures
            r == spec_record(self, count as nat, passed),
    {
        match self {
            HarnessState::Running(i) => {
                if !passed {
                    HarnessState::Aborted(i)
                } else if i + 1 >= count {
                    HarnessState::AllPassed
                } else {
                    HarnessState::Running(i + 1)
                }
            },
            _ => self,
        }
    }

    /// The exit code of a finished run: success when every test passed.
    pub fn exit_code(&self) -> (r: OSExitCode)
        requires
            *self is AllPassed || *self is Aborted,
        ensures
            r == spec_exit_code(*self),
    {
        match self {
            HarnessState::AllPassed => OSExitCode::Success,
            _ => OSExitCode::Fail,
        }
    }
}

/// While the harness runs, the test at index `i` is the one after the
/// `i` tests that ran and passed; once a test fails or the last one passed,
/// the run is over.
pub proof fn lemma_run_state(count: nat, outcomes: Seq<bool>)
    requires
        count <= usize::MAX,
        outcomes.len() <= count,
        forall|i: int| 0 <= i < outcomes.len() ==> #[trigger] outcomes[i],
    ensures
        outcomes.len() < count ==> run_state(count, outcomes) == HarnessState::Running(
            outcomes.len() as usize,
        ),
        outcomes.len() == count ==> run_state(count, outcomes) == HarnessState::AllPassed,
    decreases outcomes.len(),
{
    if outcomes.len() > 0 {
        let init = outcomes.drop_last();
        assert forall|i: int| 0 <= i < init.len() implies #[trigger] init[i] by {
            assert(init[i] == outcomes[i]);
        }
        lemma_run_state(count, init);
        assert(outcomes.last() == outcomes[outcomes.len() - 1]);
    }
}

/// A run in which the tests before index `i` passed and test `i` failed
/// ends aborted at `i`, with the failure exit code, whatever the later
/// tests would have done.
pub proof fn lemma_abort_at_first_failure(count: nat, outcomes: Seq<bool>)
    requires
        count <= usize::MAX,
        0 < outcomes.len() <= count,
        forall|i: int| 0 <= i < outcomes.len() - 1 ==> #[trigger] outcomes[i],
        !outcomes.last(),
    ensures
        run_state(count, outcomes) == HarnessState::Aborted((outcomes.len() - 1) as usize),
        spec_exit_code(run_state(count, outcomes)) == OSExitCode::Fail,
{
    let init = outcomes.drop_last();
    assert forall|i: int| 0 <= i < init.len() implies #[trigger] init[i] by {
        assert(init[i] == outcomes[i]);
    }
    lemma_run_state(count, init);
}

/// Outcomes that follow the tests' results, in order, until the first
/// failure or the end: exactly the tests up to and including the first
/// failing one ran, or all of them when none fails.
pub proof fn lemma_outcomes_stop_at_first_failure<T: Testable>(tests: Seq<T>, outcomes: Seq<bool>)
    requires
        outcomes.len() <= tests.len(),
        tests.len() > 0 ==> outcomes.len() > 0,
        forall|i: int| 0 <= i < outcomes.len() - 1 ==> #[trigger] outcomes[i],
        outcomes.len() < tests.len() ==> !outcomes.last(),
        forall|i: int| 0 <= i < outcomes.len() ==> #[trigger] outcomes[i] == tests[i].spec_passes(),
    ensures
        forall|j: int|
            0 <= j < tests.len() && !(#[trigger] tests[j].spec_passes()) && (forall|i: int|
                0 <= i < j ==> tests[i].spec_passes()) ==> outcomes.len() == j + 1,
        (forall|i: int| 0 <= i < tests.len() ==> #[trigger] tests[i].spec_passes())
            ==> outcomes.len() == tests.len(),
{
    let l = outcomes.len() as int;
    assert forall|j: int|
        0 <= j < tests.len() && !(#[trigger] tests[j].spec_passes()) && (forall|i: int|
            0 <= i < j ==> tests[i].spec_passes()) implies outcomes.len() == j + 1 by {
        if l - 1 < j {
            assert(tests[l - 1].spec_passes());
            assert(outcomes[l - 1] == tests[l - 1].spec_passes());
            assert(outcomes.last() == outcomes[l - 1]);
        }
        if j < l - 1 {
            assert(outcomes[j]);
            assert(outcomes[j] == tests[j].spec_passes());
        }
    }
    if forall|i: int| 0 <= i < tests.len() ==> #[trigger] tests[i].spec_passes() {
        if l < tests.len() {
            assert(outcomes[l - 1] == tests[l - 1].spec_passes());
            assert(outcomes.last() == outcomes[l - 1]);
        }
    }
}

/// What a run of the harness did: whether each test that ran passed, in
/// registry order, the message of the failure if one failed, and the exit
/// code for the host.
pub struct TestRun {
    pub outcomes: Vec<bool>,
    pub failure: Option<String>,
    pub exit_code: OSExitCode,
}

/// Runs the tests in registry order, reporting each one, and stops at the
/// first failure: the tests after it never run. The exit code is
/// `Success` exactly when every test ran and passed.
pub fn run_test<T: Testable, R: TestReporter>(tests: &[T], reporter: &mut R) -> (r: TestRun)
    ensures
        r.outcomes@.len() <= tests@.len(),
        tests@.len() > 0 ==> r.outcomes@.len() > 0,
        forall|i: int| 0 <= i < r.outcomes@.len() - 1 ==> #[trigger] r.outcomes@[i],
        r.outcomes@.len() < tests@.len() ==> !r.outcomes@.last(),
        run_state(tests@.len(), r.outcomes@) is AllPassed || run_state(
            tests@.len(),
            r.outcomes@,
        ) is Aborted,
        r.exit_code == spec_exit_code(run_state(tests@.len(), r.outcomes@)),
        r.exit_code == OSExitCode::Success <==> (r.outcomes@.len() == tests@.len() && forall|
            i: int,
        | 0 <= i < r.outcomes@.len() ==> #[trigger] r.outcomes@[i]),
        r.failure is Some <==> r.exit_code == OSExitCode::Fail,
        forall|i: int| 0 <= i < r.outcomes@.len() ==> #[trigger] r.outcomes@[i] == tests@[i].spec_passes(),
        forall|j: int|
            0 <= j < tests@.len() && !(#[trigger] tests@[j].spec_passes()) && (forall|i: int|
                0 <= i < j ==> tests@[i].spec_passes()) ==> r.outcomes@.len() == j + 1,
        (forall|i: int| 0 <= i < tests@.len() ==> #[trigger] tests@[i].spec_passes())
            ==> r.outcomes@.len() == tests@.len(),
        r.exit_code == OSExitCode::Success ==> report_events(final(reporter).reported()) == report_events(old(reporter).reported()).push(
            ReportEvent::Starting(tests@.len()),
        ) + passed_reports(tests@, tests@.len()),
        r.failure matches Some(message) ==> report_events(final(reporter).reported()) == report_events(old(reporter).reported()).push(
            ReportEvent::Starting(tests@.len()),
        ) + passed_reports(tests@, (r.outcomes@.len() - 1) as nat) + seq![
            ReportEvent::Running(tests@[r.outcomes@.len() - 1].spec_name()@),
            ReportEvent::Failed(message@),
        ],
{
    let count = tests.len();
    reporter.starting(count);
    let ghost head = report_events(old(reporter).reported()).push(ReportEvent::Starting(count as nat));
    let mut state = HarnessState::Idle.begin(count);
    let mut outcomes: Vec<bool> = Vec::new();
    let mut failure: Option<String> = None;
    let mut i: usize = 0;
    while i < count
        invariant
            count == tests@.len(),
            i <= count,
            outcomes@.len() == i,
            forall|j: int| 0 <= j < i ==> #[trigger] outcomes@[j],
            forall|j: int| 0 <= j < i ==> #[trigger] outcomes@[j] == tests@[j].spec_passes(),
            head == report_events(old(reporter).reported()).push(ReportEvent::Starting(count as nat)),
            report_events(reporter.reported()) == head + passed_reports(tests@, i as nat),
            state == run_state(count as nat, outcomes@),
            state == (if i < count {
                HarnessState::Running(i)
            } else {
                HarnessState::AllPassed
            }),
            failure is None,
        decreases count - i,
    {
        proof {
            lemma_run_state(count as nat, outcomes@);
        }
        let test = &tests[i];
        let name = test.name();
        reporter.running(name.as_str());
        let result = test.run();
        let passed = result.is_ok();
        let ghost before = outcomes@;
        outcomes.push(passed);
        assert(outcomes@.drop_last() =~= before);
        state = state.record(count, passed);
        match result {
            Ok(()) => {
                reporter.passed();
                assert(head + passed_reports(tests@, (i + 1) as nat) =~= head + passed_reports(
                    tests@,
                    i as nat,
                ) + seq![ReportEvent::Running(tests@[i as int].spec_name()@), ReportEvent::Passed]);
            },
            Err(message) => {
                reporter.failed(message.as_str());
                assert(report_events(reporter.reported()) =~= head + passed_reports(tests@, i as nat) + seq![
                    ReportEvent::Running(tests@[i as int].spec_name()@),
                    ReportEvent::Failed(message@),
                ]);
                proof {
                    lemma_abort_at_first_failure(count as nat, outcomes@);
                }
                let code = state.exit_code();
                assert(outcomes@.len() == i + 1);
                proof {
                    lemma_outcomes_stop_at_first_failure(tests@, outcomes@);
                }
                assert(head == report_events(old(reporter).reported()).push(ReportEvent::Starting(tests@.len())));
                return TestRun { outcomes, failure: Some(message), exit_code: code };
            },
        }
        i += 1;
        proof {
            lemma_run_state(count as nat, outcomes@);
        }
    }
    proof {
        lemma_run_state(count as nat, outcomes@);
    }
    let code = state.exit_code();
    assert(head == report_events(old(reporter).reported()).push(ReportEvent::Starting(tests@.len())));
    proof {
        lemma_outcomes_stop_at_first_failure(tests@, outcomes@);
    }
    TestRun { outcomes, failure, exit_code: code }
}

} // verus!
