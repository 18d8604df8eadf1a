//! A whole run as a state machine: suites in turn, the tests of each in
//! registration order, every outcome reported once.

use vstd::prelude::*;

use crate::engine::{RunResult, Step, TestRun};
use crate::error::{ErrorView, TestResult};
use crate::registry::{grouped, has_suite, lemma_grouped, Registry, Suite, Test, TestFunction};
use crate::report::{lemma_verdict_push, verdict_of};

verus! {

/// What the harness must do next.
#[derive(Debug)]
pub enum Action {
    /// Announce the suite of this index.
    StartSuite(usize),
    /// Announce that the test of this index is about to run.
    WriteTest(usize),
    /// Perform one step of the current test's run and hand back its outcome.
    Perform(Step),
    /// Close the current test's handle, if any, and report its outcome.
    WriteResult(usize, TestResult),
    /// Close the current suite.
    EndSuite,
    /// The run is over, with this verdict.
    Exit(RunResult),
}

/// Where a run stands between actions.
#[derive(Clone, Copy, Debug, PartialEq, Eq, Structural)]
pub enum Stage {
    SuiteStart,
    TestStart,
    Starting,
    Running,
    Finished,
}

/// Lexicographic order on progress measures.
pub open spec fn lex_lt(a: (int, int, int, int), b: (int, int, int, int)) -> bool {
    ||| a.0 < b.0
    ||| a.0 == b.0 && a.1 < b.1
    ||| a.0 == b.0 && a.1 == b.1 && a.2 < b.2
    ||| a.0 == b.0 && a.1 == b.1 && a.2 == b.2 && a.3 < b.3
}

/// Whether one of the first `bound` suites is named `name`.
pub open spec fn named_before(suites: Seq<Suite>, bound: int, name: Seq<char>) -> bool {
    exists|m: int| 0 <= m < bound && m < suites.len() && #[trigger] suites[m].name@ == name
}

/// A whole run: the registered tests grouped into suites, each suite's tests
/// run one after the other in registration order, each outcome reported
/// once; a failure fails the verdict and the run goes on.
pub struct Harness {
    tests: Vec<Test>,
    suites: Vec<Suite>,
    k: usize,
    j: usize,
    stage: Stage,
    run: Option<TestRun>,
    verdict: RunResult,
    reported: Ghost<Seq<usize>>,
    outcomes: Ghost<Seq<Option<ErrorView>>>,
}

impl Harness {
    pub closed spec fn tests(&self) -> Seq<Test> {
        self.tests@
    }

    pub closed spec fn suites(&self) -> Seq<Suite> {
        self.suites@
    }

    pub closed spec fn stage(&self) -> Stage {
        self.stage
    }

    /// The index of the current suite.
    pub closed spec fn suite_index(&self) -> int {
        self.k as int
    }

    /// The position of the current test within its suite.
    pub closed spec fn member_index(&self) -> int {
        self.j as int
    }

    /// The run of the current test, while it runs.
    pub closed spec fn run(&self) -> Option<TestRun> {
        self.run
    }

    /// The indices of the tests whose outcome has been reported, in order.
    pub closed spec fn reported(&self) -> Seq<usize> {
        self.reported@
    }

    /// The outcomes reported, in order.
    pub closed spec fn outcomes(&self) -> Seq<Option<ErrorView>> {
        self.outcomes@
    }

    /// Whether the run is over.
    pub open spec fn finished(&self) -> bool {
        self.stage() == Stage::Finished
    }

    /// The index of the current test.
    pub open spec fn current_test(&self) -> usize {
        self.suites()[self.suite_index()].members@[self.member_index()]
    }

    /// How far the run is from its end, compared lexicographically: suites
    /// left, tests left in the current suite, the stage within a test, and
    /// the steps left in the test's run.
    pub closed spec fn progress(&self) -> (int, int, int, int) {
        let left = self.suites@.len() - self.k;
        match self.stage {
            Stage::SuiteStart => (left + 1, -1, 0, 0),
            Stage::TestStart => (left, self.suites@[self.k as int].members.len() - self.j, 3, 0),
            Stage::Starting => (left, self.suites@[self.k as int].members.len() - self.j, 2, 0),
            Stage::Running => (
                left,
                self.suites@[self.k as int].members.len() - self.j,
                1,
                match self.run {
                    Some(r) => r.remaining() as int,
                    None => 0,
                },
            ),
            Stage::Finished => (0, 0, 0, 0),
        }
    }

    /// Whether a suite is under way.
    pub closed spec fn in_suite(&self) -> bool {
        self.stage == Stage::TestStart || self.stage == Stage::Starting || self.stage == Stage::Running
    }

    /// The number of suites begun so far.
    pub closed spec fn begun(&self) -> int {
        if self.in_suite() {
            self.k + 1
        } else {
            self.k as int
        }
    }

    /// The run's invariant: the suites are the grouping of the tests; the
    /// position is within them; each reported index is a test, reported once,
    /// of a suite begun so far, and every test of a suite already passed has
    /// been reported, as has every test before the current one in its suite.
    pub closed spec fn wf(&self) -> bool {
        let tests = self.tests@;
        let suites = self.suites@;
        let reported = self.reported@;
        &&& tests.len() <= usize::MAX
        &&& grouped(tests, suites)
        &&& self.k <= suites.len()
        &&& self.in_suite() ==> self.k < suites.len() && self.j <= suites[self.k as int].members.len()
        &&& (self.stage == Stage::Starting || self.stage == Stage::Running) ==> self.j
            < suites[self.k as int].members.len()
        &&& (self.stage == Stage::Running) == (self.run is Some)
        &&& self.run matches Some(r) ==> r.wf() && !r.done()
        &&& self.stage == Stage::Finished ==> self.k == suites.len()
        &&& self.verdict == verdict_of(self.outcomes@)
        &&& reported.len() == self.outcomes@.len()
        &&& reported.no_duplicates()
        &&& forall|p: int| 0 <= p < reported.len() ==> #[trigger] reported[p] < tests.len()
        &&& forall|p: int|
            0 <= p < reported.len() ==> named_before(
                suites,
                self.begun(),
                tests[#[trigger] reported[p] as int].module_name@,
            )
        &&& self.in_suite() ==> forall|p: int|
            0 <= p < reported.len() && tests[#[trigger] reported[p] as int].module_name@
                == suites[self.k as int].name@ && self.j < suites[self.k as int].members.len()
                ==> reported[p] < suites[self.k as int].members[self.j as int]
        &&& forall|m: int, a: int|
            0 <= m < self.k && 0 <= a < suites[m].members.len() ==> reported.contains(
                #[trigger] suites[m].members[a],
            )
        &&& self.in_suite() ==> forall|a: int|
            0 <= a < self.j ==> reported.contains(#[trigger] suites[self.k as int].members[a])
    }

    /// A run of every test of `registry`, before its first action.
    pub fn new(registry: Registry) -> (r: Harness)
        ensures
            r.wf(),
            r.tests() == registry@,
            grouped(r.tests(), r.suites()),
            r.stage() == Stage::SuiteStart,
            r.suite_index() == 0,
            r.reported() == Seq::<usize>::empty(),
            r.outcomes() == Seq::<Option<ErrorView>>::empty(),
    {
        let suites = registry.get_test_suites();
        let tests = registry.into_tests();
        assert(tests@.len() == tests.len());
        Harness {
            tests,
            suites,
            k: 0,
            j: 0,
            stage: Stage::SuiteStart,
            run: None,
            verdict: RunResult::Success,
            reported: Ghost(Seq::empty()),
            outcomes: Ghost(Seq::empty()),
        }
    }

    /// Takes the outcome of the last `Perform` action (any value after other
    /// actions) and returns the next action.
    pub fn next(&mut self, event: TestResult) -> (action: Action)
        requires
            old(self).wf(),
            !old(self).finished(),
        ensures
            final(self).wf(),
            lex_lt(final(self).progress(), old(self).progress()),
            0 <= final(self).progress().0,
            final(self).tests() == old(self).tests(),
            final(self).suites() == old(self).suites(),
            old(self).stage() == Stage::SuiteStart ==> if old(self).suite_index()
                < old(self).suites().len() {
                &&& action == Action::StartSuite(old(self).suite_index() as usize)
                &&& final(self).stage() == Stage::TestStart
                &&& final(self).suite_index() == old(self).suite_index()
                &&& final(self).member_index() == 0
            } else {
                &&& action == Action::Exit(verdict_of(old(self).outcomes()))
                &&& final(self).finished()
            },
            old(self).stage() == Stage::TestStart ==> if old(self).member_index()
                < old(self).suites()[old(self).suite_index()].members.len() {
                &&& action == Action::WriteTest(old(self).current_test())
                &&& final(self).stage() == Stage::Starting
                &&& final(self).suite_index() == old(self).suite_index()
                &&& final(self).member_index() == old(self).member_index()
            } else {
                &&& action == Action::EndSuite
                &&& final(self).stage() == Stage::SuiteStart
                &&& final(self).suite_index() == old(self).suite_index() + 1
            },
            old(self).stage() == Stage::Starting ==> {
                &&& final(self).stage() == Stage::Running
                &&& final(self).run() == Some(
                    TestRun::fresh(old(self).tests()[old(self).current_test() as int]),
                )
                &&& action == Action::Perform(
                    if old(self).tests()[old(self).current_test() as int].test_fn
                        == TestFunction::WithFd {
                        Step::OpenDevice
                    } else {
                        Step::InvokeBody
                    },
                )
            },
            old(self).stage() == Stage::Running ==> {
                let (run, step) = old(self).run()->0.next_of(event);
                match step {
                    Step::Finish(o) => {
                        &&& action == Action::WriteResult(old(self).current_test(), o)
                        &&& final(self).run() is None
                    },
                    _ => {
                        &&& action == Action::Perform(step)
                        &&& final(self).run() == Some(run)
                        &&& final(self).stage() == Stage::Running
                        &&& final(self).suite_index() == old(self).suite_index()
                        &&& final(self).member_index() == old(self).member_index()
                        &&& run.remaining() < old(self).run()->0.remaining()
                    },
                }
            },
            action matches Action::Perform(s) ==> !(s is Finish),
            action matches Action::WriteResult(i, o) ==> {
                &&& old(self).stage() == Stage::Running
                &&& i == old(self).current_test()
                &&& final(self).reported() == old(self).reported().push(i)
                &&& final(self).outcomes() == old(self).outcomes().push(o@)
                &&& final(self).stage() == Stage::TestStart
                &&& final(self).suite_index() == old(self).suite_index()
                &&& final(self).member_index() == old(self).member_index() + 1
            },
            !(action is WriteResult) ==> final(self).reported() == old(self).reported()
                && final(self).outcomes() == old(self).outcomes(),
    {
        proof {
            lemma_grouped(self.tests@, self.suites@);
        }
        match self.stage {
            Stage::SuiteStart => {
                if self.k < self.suites.len() {
                    self.stage = Stage::TestStart;
                    self.j = 0;
                    assert forall|p: int| 0 <= p < self.reported@.len() implies named_before(
                        self.suites@,
                        self.begun(),
                        self.tests@[#[trigger] self.reported@[p] as int].module_name@,
                    ) by {
                        assert(named_before(
                            self.suites@,
                            old(self).begun(),
                            self.tests@[self.reported@[p] as int].module_name@,
                        ));
                    }
                    assert forall|p: int|
                        0 <= p < self.reported@.len() && self.tests@[#[trigger] self.reported@[p] as int].module_name@
                            == self.suites@[self.k as int].name@ && self.j
                            < self.suites@[self.k as int].members.len() implies self.reported@[p]
                        < self.suites@[self.k as int].members[self.j as int] by {
                        let name = self.tests@[self.reported@[p] as int].module_name@;
                        assert(named_before(self.suites@, old(self).begun(), name));
                        let m = choose|m: int|
                            0 <= m < old(self).begun() && m < self.suites@.len()
                                && #[trigger] self.suites@[m].name@ == name;
                        assert(m != self.k);
                    }
                    Action::StartSuite(self.k)
                } else {
                    self.stage = Stage::Finished;
                    Action::Exit(self.verdict)
                }
            },
            Stage::TestStart => {
                if self.j < self.suites[self.k].members.len() {
                    self.stage = Stage::Starting;
                    Action::WriteTest(self.suites[self.k].members[self.j])
                } else {
                    let count = self.suites.len();
                    assert(self.k < count);
                    self.k = self.k + 1;
                    self.stage = Stage::SuiteStart;
                    Action::EndSuite
                }
            },
            Stage::Starting => {
                let i = self.suites[self.k].members[self.j];
                let (run, step) = TestRun::start(&self.tests[i]);
                self.run = Some(run);
                self.stage = Stage::Running;
                Action::Perform(step)
            },
            _ => {
                let mut run = self.run.take().unwrap();
                let step = run.advance(event);
                match step {
                    Step::Finish(outcome) => {
                        let i = self.suites[self.k].members[self.j];
                        let ghost old_reported = self.reported@;
                        proof {
                            if old_reported.contains(i) {
                                let p = choose|p: int|
                                    0 <= p < old_reported.len() && old_reported[p] == i;
                                assert(self.tests@[old_reported[p] as int].module_name@
                                    == self.suites@[self.k as int].name@);
                            }
                        }
                        self.verdict = self.verdict.record(&outcome);
                        self.reported = Ghost(self.reported@.push(i));
                        self.outcomes = Ghost(self.outcomes@.push(outcome@));
                        self.j = self.j + 1;
                        self.stage = Stage::TestStart;
                        proof {
                            lemma_verdict_push(old(self).outcomes@, outcome@);
                            let r = self.reported@;
                            assert forall|a: int, b: int|
                                0 <= a < r.len() && 0 <= b < r.len() && a != b implies r[a]
                                != r[b] by {
                                if a < old_reported.len() && b < old_reported.len() {
                                    assert(old_reported[a] != old_reported[b]);
                                } else if a < old_reported.len() {
                                    assert(old_reported.contains(r[a]));
                                } else if b < old_reported.len() {
                                    assert(old_reported.contains(r[b]));
                                }
                            }
                            assert forall|p: int| 0 <= p < r.len() implies #[trigger] r[p]
                                < self.tests@.len() by {
                                if p < old_reported.len() {
                                    assert(r[p] == old_reported[p]);
                                }
                            }
                            assert forall|p: int| 0 <= p < r.len() implies named_before(
                                self.suites@,
                                self.begun(),
                                self.tests@[#[trigger] r[p] as int].module_name@,
                            ) by {
                                if p < old_reported.len() {
                                    assert(r[p] == old_reported[p]);
                                } else {
                                    assert(self.suites@[self.k as int].name@ == self.tests@[i as int].module_name@);
                                }
                            }
                            let k = self.k as int;
                            let j = self.j as int;
                            let members = self.suites@[k].members@;
                            assert forall|p: int|
                                0 <= p < r.len() && self.tests@[#[trigger] r[p] as int].module_name@
                                    == self.suites@[k].name@ && j < self.suites@[k].members.len()
                                    implies r[p] < self.suites@[k].members[j] by {
                                assert(members[j - 1] < members[j]);
                                if p < old_reported.len() {
                                    assert(r[p] == old_reported[p]);
                                }
                            }
                            assert forall|m: int, a: int|
                                0 <= m < self.k && 0 <= a < self.suites@[m].members.len() implies r.contains(
                                #[trigger] self.suites@[m].members[a],
                            ) by {
                                assert(old_reported.contains(self.suites@[m].members[a]));
                                let p = choose|p: int|
                                    0 <= p < old_reported.len() && old_reported[p]
                                        == self.suites@[m].members[a];
                                assert(r[p] == old_reported[p]);
                            }
                            assert forall|a: int| 0 <= a < j implies r.contains(
                                #[trigger] self.suites@[k].members[a],
                            ) by {
                                if a < j - 1 {
                                    assert(old_reported.contains(self.suites@[k].members[a]));
                                    let p = choose|p: int|
                                        0 <= p < old_reported.len() && old_reported[p]
                                            == self.suites@[k].members[a];
                                    assert(r[p] == old_reported[p]);
                                } else {
                                    assert(r[r.len() - 1] == i);
                                }
                            }
                        }
                        Action::WriteResult(i, outcome)
                    },
                    _ => {
                        self.run = Some(run);
                        Action::Perform(step)
                    },
                }
            },
        }
    }

    /// The test of index `i`.
    pub fn test(&self, i: usize) -> (r: &Test)
        requires
            i < self.tests().len(),
        ensures
            *r == self.tests()[i as int],
    {
        &self.tests[i]
    }

    /// The number of registered tests.
    pub fn test_count(&self) -> (r: usize)
        ensures
            r == self.tests().len(),
    {
        self.tests.len()
    }

    /// The suite of index `k`.
    pub fn suite(&self, k: usize) -> (r: &Suite)
        requires
            k < self.suites().len(),
        ensures
            *r == self.suites()[k as int],
    {
        &self.suites[k]
    }

    /// The number of suites.
    pub fn suite_count(&self) -> (r: usize)
        ensures
            r == self.suites().len(),
    {
        self.suites.len()
    }
}

/// A finished run has reported every registered test exactly once: each
/// test's index appears among the reported ones, no index twice, and no index
/// that names no test.
pub proof fn lemma_each_test_reported_once(h: &Harness)
    requires
        h.wf(),
        h.finished(),
    ensures
        h.reported().no_duplicates(),
        forall|p: int| 0 <= p < h.reported().len() ==> #[trigger] h.reported()[p] < h.tests().len(),
        forall|i: usize| i < h.tests().len() ==> #[trigger] h.reported().contains(i),
        h.reported().len() == h.tests().len(),
        h.outcomes().len() == h.tests().len(),
{
    let tests = h.tests();
    let suites = h.suites();
    let r = h.reported();
    lemma_grouped(tests, suites);
    assert forall|i: usize| i < tests.len() implies #[trigger] r.contains(i) by {
        let t = tests[i as int];
        assert(has_suite(suites, t.module_name@));
        let m = choose|m: int| 0 <= m < suites.len() && #[trigger] suites[m].name@ == t.module_name@;
        assert(suites[m].members@.contains(i as int as usize));
        let a = choose|a: int| 0 <= a < suites[m].members@.len() && suites[m].members@[a] == i;
        assert(r.contains(suites[m].members[a]));
    }
    lemma_distinct_in_range(r, tests.len());
}

/// A sequence of distinct indices below `n` that holds each of them has
/// exactly `n` elements.
proof fn lemma_distinct_in_range(r: Seq<usize>, n: nat)
    requires
        r.no_duplicates(),
        n <= usize::MAX,
        forall|p: int| 0 <= p < r.len() ==> #[trigger] r[p] < n,
        forall|i: usize| i < n ==> #[trigger] r.contains(i),
    ensures
        r.len() == n,
{
    let s = r.to_set();
    r.unique_seq_to_set();
    let range = Set::new(|x: usize| x < n);
    assert(s =~= range) by {
        assert forall|x: usize| s.contains(x) implies range.contains(x) by {
            let p = choose|p: int| 0 <= p < r.len() && r[p] == x;
        }
        assert forall|x: usize| range.contains(x) implies s.contains(x) by {
        }
    }
    lemma_range_len(n);
}

proof fn lemma_range_len(n: nat)
    requires
        n <= usize::MAX,
    ensures
        Set::new(|x: usize| x < n).finite(),
        Set::new(|x: usize| x < n).len() == n,
    decreases n,
{
    if n == 0 {
        assert(Set::new(|x: usize| x < 0) =~= Set::<usize>::empty());
    } else {
        lemma_range_len((n - 1) as nat);
        let smaller = Set::new(|x: usize| x < (n - 1) as nat);
        assert(!smaller.contains((n - 1) as usize));
        assert(Set::new(|x: usize| x < n) =~= smaller.insert((n - 1) as usize));
    }
}

} // verus!
