//! Reporting a run: the writer interface, and a writer of TAP streams whose
//! output is specified line by line.

use vstd::prelude::*;
use vstd::string::StringExecFns;

use crate::engine::RunResult;
use crate::error::{description, ErrorView, TestResult};
use crate::registry::Test;
use crate::render::{decimal, decimal_string};

verus! {

/// Receives the progress of a run: suite boundaries, each test as it starts
/// and each outcome as it ends.
pub trait TestResultWriter: Sized {
    fn new() -> Self;

    /// A test is about to run.
    fn write_test(&mut self, test: &Test);

    /// A test ended with `res`; a failure's message must be shown.
    fn write_result(&mut self, test: &Test, res: &TestResult);

    /// A suite of `count` tests begins.
    fn start_suite(&mut self, name: &str, count: usize) {
    }

    /// The current suite ended.
    fn end_suite(&mut self) {
    }
}

/// One reported outcome: the test's name and its failure, if any.
pub struct Reported {
    pub test: Seq<char>,
    pub outcome: Option<ErrorView>,
}

/// One finished suite: its name and its outcomes, in order.
pub struct SuiteReport {
    pub name: Seq<char>,
    pub results: Seq<Reported>,
}

/// The comment line that opens a suite.
pub open spec fn header(name: Seq<char>) -> Seq<char> {
    "# "@ + name
}

/// The plan line that closes a suite of `n` tests.
pub open spec fn plan(n: nat) -> Seq<char> {
    "1.."@ + decimal(n)
}

/// The numbered line of the `n`-th outcome of a suite: `ok <n> <name>` for
/// a success, `not ok <n> <name>` for a failure.
pub open spec fn numbered_line(n: nat, r: Reported) -> Seq<char> {
    if r.outcome is None {
        "ok "@ + decimal(n) + " "@ + r.test
    } else {
        "not ok "@ + decimal(n) + " "@ + r.test
    }
}

/// The lines of the `n`-th outcome of a suite: its numbered line and, for a
/// failure, a diagnostic line with the error's message.
pub open spec fn result_lines(n: nat, r: Reported) -> Seq<Seq<char>> {
    match r.outcome {
        None => seq![numbered_line(n, r)],
        Some(e) => seq![numbered_line(n, r), "# "@ + description(e)],
    }
}

/// The lines of a suite's outcomes, numbered from one.
pub open spec fn suite_body(results: Seq<Reported>) -> Seq<Seq<char>>
    decreases results.len(),
{
    if results.len() == 0 {
        Seq::empty()
    } else {
        suite_body(results.drop_last()) + result_lines(results.len(), results.last())
    }
}

/// The complete report of one suite.
pub open spec fn tap_suite(s: SuiteReport) -> Seq<Seq<char>> {
    seq![header(s.name)] + suite_body(s.results) + seq![plan(s.results.len())]
}

/// The report of a run: each suite's report, in order.
pub open spec fn tap_run(suites: Seq<SuiteReport>) -> Seq<Seq<char>>
    decreases suites.len(),
{
    if suites.len() == 0 {
        Seq::empty()
    } else {
        tap_run(suites.drop_last()) + tap_suite(suites.last())
    }
}

/// The verdict of a sequence of outcomes: a success exactly when none failed.
pub open spec fn verdict_of(outcomes: Seq<Option<ErrorView>>) -> RunResult {
    if forall|i: int| 0 <= i < outcomes.len() ==> outcomes[i] is None {
        RunResult::Success
    } else {
        RunResult::Failure
    }
}

/// The number of failed outcomes among `results`.
pub open spec fn failures(results: Seq<Reported>) -> nat
    decreases results.len(),
{
    if results.len() == 0 {
        0
    } else {
        failures(results.drop_last()) + if results.last().outcome is Some {
            1nat
        } else {
            0nat
        }
    }
}

/// Where the line of the `i`-th outcome (from zero) stands in a suite's body:
/// after the lines of the earlier outcomes and their diagnostics.
pub open spec fn line_index(results: Seq<Reported>, i: int) -> int {
    i + failures(results.subrange(0, i))
}

proof fn lemma_suite_body(results: Seq<Reported>)
    ensures
        suite_body(results).len() == results.len() + failures(results),
        forall|i: int|
            0 <= i < results.len() ==> suite_body(results)[#[trigger] line_index(results, i)]
                == numbered_line((i + 1) as nat, results[i]),
        forall|i: int|
            0 <= i < results.len() && results[i].outcome is Some ==> suite_body(results)[line_index(
                results,
                i,
            ) + 1] == "# "@ + description(#[trigger] results[i].outcome->0),
    decreases results.len(),
{
    if results.len() > 0 {
        let rest = results.drop_last();
        let n = results.len() - 1;
        lemma_suite_body(rest);
        assert(results.subrange(0, n) =~= rest);
        assert forall|i: int| 0 <= i < results.len() implies suite_body(results)[#[trigger] line_index(
            results,
            i,
        )] == numbered_line((i + 1) as nat, results[i]) && (results[i].outcome is Some
            ==> suite_body(results)[line_index(results, i) + 1] == "# "@ + description(
            results[i].outcome->0,
        )) by {
            if i < n {
                assert(results.subrange(0, i) =~= rest.subrange(0, i));
                assert(results[i] == rest[i]);
                assert(line_index(results, i) == line_index(rest, i));
                if results[i].outcome is Some {
                    assert(line_index(rest, i) + 1 < suite_body(rest).len()) by {
                        lemma_line_index_bound(rest, i);
                    }
                }
                lemma_line_index_bound(rest, i);
            }
        }
    }
}

proof fn lemma_failures_prefix(results: Seq<Reported>, i: int)
    requires
        0 <= i <= results.len(),
    ensures
        failures(results.subrange(0, i)) <= failures(results),
        i < results.len() ==> failures(results.subrange(0, i)) + (if results[i].outcome is Some {
            1nat
        } else {
            0nat
        }) <= failures(results),
    decreases results.len(),
{
    if i < results.len() {
        let rest = results.drop_last();
        if i < rest.len() {
            lemma_failures_prefix(rest, i);
            assert(results.subrange(0, i) =~= rest.subrange(0, i));
            assert(results[i] == rest[i]);
        } else {
            assert(results.subrange(0, i) =~= rest);
        }
    } else {
        assert(results.subrange(0, i) =~= results);
    }
}

proof fn lemma_line_index_bound(results: Seq<Reported>, i: int)
    requires
        0 <= i < results.len(),
    ensures
        line_index(results, i) < results.len() + failures(results),
        results[i].outcome is Some ==> line_index(results, i) + 1 < results.len() + failures(
            results,
        ),
{
    lemma_failures_prefix(results, i);
}

/// A suite's report is a comment line naming the suite, then exactly one
/// numbered line per outcome, numbered from one in the order of the outcomes,
/// each failure followed by a diagnostic line with the error's message, and
/// last a plan line whose count is the number of outcomes.
pub proof fn lemma_tap_numbering(s: SuiteReport)
    ensures
        tap_suite(s).len() == 2 + s.results.len() + failures(s.results),
        tap_suite(s)[0] == header(s.name),
        tap_suite(s).last() == plan(s.results.len()),
        forall|i: int|
            0 <= i < s.results.len() ==> tap_suite(s)[1 + #[trigger] line_index(s.results, i)]
                == numbered_line((i + 1) as nat, s.results[i]),
        forall|i: int|
            0 <= i < s.results.len() && s.results[i].outcome is Some ==> tap_suite(s)[2
                + line_index(s.results, i)] == "# "@ + description(
                #[trigger] s.results[i].outcome->0,
            ),
{
    lemma_suite_body(s.results);
    let body = suite_body(s.results);
    assert forall|i: int| 0 <= i < s.results.len() implies tap_suite(s)[1 + #[trigger] line_index(
        s.results,
        i,
    )] == numbered_line((i + 1) as nat, s.results[i]) by {
        lemma_line_index_bound(s.results, i);
    }
    assert forall|i: int|
        0 <= i < s.results.len() && s.results[i].outcome is Some implies tap_suite(s)[2
            + line_index(s.results, i)] == "# "@ + description(
            #[trigger] s.results[i].outcome->0,
        ) by {
        lemma_line_index_bound(s.results, i);
    }
}

/// A writer that is between suites has written exactly the report of the
/// suites it was given.
pub proof fn lemma_text_is_report(w: &TapWriter)
    requires
        w.wf(),
        !w.in_suite(),
    ensures
        w.text() == tap_run(w.history()),
{
}

/// The report depends on nothing but the suites and their outcomes: two
/// writers given the same suites with the same outcomes have written the same
/// lines.
pub proof fn lemma_report_reproducible(a: &TapWriter, b: &TapWriter)
    requires
        a.wf(),
        b.wf(),
        !a.in_suite(),
        !b.in_suite(),
        a.history() == b.history(),
    ensures
        a.text() == b.text(),
{
    lemma_text_is_report(a);
    lemma_text_is_report(b);
}

/// One more outcome fails the verdict exactly when it is a failure or the
/// verdict had failed already.
pub proof fn lemma_verdict_push(outcomes: Seq<Option<ErrorView>>, o: Option<ErrorView>)
    ensures
        verdict_of(outcomes.push(o)) == (if verdict_of(outcomes) == RunResult::Success && o is None {
            RunResult::Success
        } else {
            RunResult::Failure
        }),
{
    let all = outcomes.push(o);
    if verdict_of(all) == RunResult::Success {
        assert forall|i: int| 0 <= i < outcomes.len() implies outcomes[i] is None by {
            assert(all[i] == outcomes[i]);
        }
        assert(all[all.len() - 1] is None);
    } else if verdict_of(outcomes) == RunResult::Success && o is None {
        assert forall|i: int| 0 <= i < all.len() implies all[i] is None by {
            if i < outcomes.len() {
                assert(all[i] == outcomes[i]);
            }
        }
    }
}

/// Writes a run as a TAP stream: a comment line naming each suite, one
/// numbered line per outcome with a diagnostic line after each failure, and
/// a plan line closing each suite.
pub struct TapWriter {
    lines: Vec<String>,
    count: u64,
    in_suite: bool,
    verdict: RunResult,
    history: Ghost<Seq<SuiteReport>>,
    suite_name: Ghost<Seq<char>>,
    results: Ghost<Seq<Reported>>,
    outcomes: Ghost<Seq<Option<ErrorView>>>,
}

impl TapWriter {
    /// The lines written so far.
    pub closed spec fn text(&self) -> Seq<Seq<char>> {
        self.lines@.map_values(|s: String| s@)
    }

    /// The suites finished so far.
    pub closed spec fn history(&self) -> Seq<SuiteReport> {
        self.history@
    }

    /// Whether a suite is open.
    pub closed spec fn in_suite(&self) -> bool {
        self.in_suite
    }

    /// The name of the open suite.
    pub closed spec fn suite_name(&self) -> Seq<char> {
        self.suite_name@
    }

    /// The outcomes of the open suite so far.
    pub closed spec fn results(&self) -> Seq<Reported> {
        self.results@
    }

    /// Every outcome of the run so far.
    pub closed spec fn outcomes(&self) -> Seq<Option<ErrorView>> {
        self.outcomes@
    }

    /// The writer's invariant: the lines are the report of the finished
    /// suites, then the open suite's comment line and outcome lines.
    pub closed spec fn wf(&self) -> bool {
        &&& self.count == self.results@.len()
        &&& self.verdict == verdict_of(self.outcomes@)
        &&& self.in_suite ==> self.text() == tap_run(self.history@) + seq![header(self.suite_name@)]
            + suite_body(self.results@)
        &&& !self.in_suite ==> self.text() == tap_run(self.history@) && self.results@.len() == 0
    }

    /// Whether a suite is open.
    pub fn suite_open(&self) -> (r: bool)
        ensures
            r == self.in_suite(),
    {
        self.in_suite
    }

    /// The number of outcomes of the open suite so far.
    pub fn count(&self) -> (r: u64)
        requires
            self.wf(),
        ensures
            r == self.results().len(),
    {
        self.count
    }

    pub fn new() -> (r: TapWriter)
        ensures
            r.wf(),
            !r.in_suite(),
            r.history() == Seq::<SuiteReport>::empty(),
            r.outcomes() == Seq::<Option<ErrorView>>::empty(),
            r.text() == Seq::<Seq<char>>::empty(),
    {
        let r = TapWriter {
            lines: Vec::new(),
            count: 0,
            in_suite: false,
            verdict: RunResult::Success,
            history: Ghost(Seq::empty()),
            suite_name: Ghost(Seq::empty()),
            results: Ghost(Seq::empty()),
            outcomes: Ghost(Seq::empty()),
        };
        assert(r.text() =~= Seq::<Seq<char>>::empty());
        r
    }

    /// Opens a suite with its comment line.
    pub fn start_suite(&mut self, name: &str)
        requires
            old(self).wf(),
            !old(self).in_suite(),
        ensures
            final(self).wf(),
            final(self).in_suite(),
            final(self).suite_name() == name@,
            final(self).results() == Seq::<Reported>::empty(),
            final(self).history() == old(self).history(),
            final(self).outcomes() == old(self).outcomes(),
            final(self).text() == old(self).text().push(header(name@)),
    {
        let mut line = String::from_str("# ");
        line.append(name);
        self.lines.push(line);
        self.in_suite = true;
        self.suite_name = Ghost(name@);
        assert(suite_body(Seq::<Reported>::empty()) == Seq::<Seq<char>>::empty());
        assert(self.text() =~= old(self).text().push(header(name@)));
        assert(self.text() =~= tap_run(self.history@) + seq![header(self.suite_name@)] + suite_body(
            self.results@,
        ));
    }

    /// Writes the line of one outcome, numbered after the suite's earlier
    /// ones, and for a failure a diagnostic line with its message.
    pub fn write_result(&mut self, test: &Test, res: &TestResult)
        requires
            old(self).wf(),
            old(self).in_suite(),
            old(self).results().len() < u64::MAX,
        ensures
            final(self).wf(),
            final(self).in_suite(),
            final(self).suite_name() == old(self).suite_name(),
            final(self).history() == old(self).history(),
            final(self).results() == old(self).results().push(
                Reported { test: test.test_name@, outcome: res@ },
            ),
            final(self).outcomes() == old(self).outcomes().push(res@),
            final(self).text() == old(self).text() + result_lines(
                (old(self).results().len() + 1) as nat,
                Reported { test: test.test_name@, outcome: res@ },
            ),
    {
        let ghost reported = Reported { test: test.test_name@, outcome: res@ };
        let ghost old_text = self.text();
        self.count = self.count + 1;
        let number = decimal_string(self.count);
        match res {
            TestResult::Success => {
                let mut line = String::from_str("ok ");
                line.append(number.as_str());
                line.append(" ");
                line.append(test.test_name.as_str());
                self.lines.push(line);
            },
            TestResult::Failure(e) => {
                let mut line = String::from_str("not ok ");
                line.append(number.as_str());
                line.append(" ");
                line.append(test.test_name.as_str());
                self.lines.push(line);
                let mut diagnostic = String::from_str("# ");
                diagnostic.append(e.description().as_str());
                self.lines.push(diagnostic);
            },
        }
        self.verdict = self.verdict.record(res);
        self.results = Ghost(self.results@.push(reported));
        self.outcomes = Ghost(self.outcomes@.push(res@));
        assert(self.text() =~= old_text + result_lines(self.results@.len(), reported));
        assert(self.results@.drop_last() =~= old(self).results@);
        assert(self.text() =~= tap_run(self.history@) + seq![header(self.suite_name@)] + suite_body(
            self.results@,
        ));
        proof {
            lemma_verdict_push(old(self).outcomes@, res@);
        }
    }

    /// Closes the open suite with its plan line.
    pub fn end_suite(&mut self)
        requires
            old(self).wf(),
            old(self).in_suite(),
        ensures
            final(self).wf(),
            !final(self).in_suite(),
            final(self).history() == old(self).history().push(
                SuiteReport { name: old(self).suite_name(), results: old(self).results() },
            ),
            final(self).outcomes() == old(self).outcomes(),
            final(self).text() == old(self).text().push(plan(old(self).results().len())),
    {
        let mut line = String::from_str("1..");
        line.append(decimal_string(self.count).as_str());
        self.lines.push(line);
        let ghost finished = SuiteReport { name: self.suite_name@, results: self.results@ };
        self.history = Ghost(self.history@.push(finished));
        self.results = Ghost(Seq::empty());
        self.count = 0;
        self.in_suite = false;
        assert(self.history@.drop_last() =~= old(self).history@);
        assert(self.text() =~= old(self).text().push(plan(finished.results.len())));
        assert(self.text() =~= tap_run(self.history@));
    }

    /// The verdict of the run so far: a success exactly when no outcome failed.
    pub fn end_run(&self) -> (r: RunResult)
        requires
            self.wf(),
        ensures
            r == verdict_of(self.outcomes()),
    {
        self.verdict
    }

    /// The lines written so far.
    pub fn lines(&self) -> (r: &Vec<String>)
        ensures
            r@.map_values(|s: String| s@) == self.text(),
    {
        &self.lines
    }
}

} // verus!
