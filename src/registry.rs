//! Test descriptors, the registry that collects them, and their grouping
//! into suites by module.

use vstd::prelude::*;
use vstd::string::StringExecFns;

use crate::uapi::ClientCapability;

verus! {

/// The calling convention that a test body declares. The body itself stays
/// with whoever registered the test, at the test's index in the registry.
#[derive(Clone, Copy, Debug, PartialEq, Eq, Structural)]
pub enum TestFunction {
    /// The body takes nothing and touches no device.
    NoArg,
    /// The body takes a freshly opened handle to the device, set up as the
    /// test asks.
    WithFd,
    /// The body takes the device's path and manages the device itself.
    WithPath,
}

/// The most capabilities that one test may request.
pub const MAX_CAPABILITIES: usize = 8;

/// An immutable description of one test.
#[derive(Clone, Debug)]
pub struct Test {
    /// The suite that the test belongs to.
    pub module_name: String,
    pub test_name: String,
    pub test_fn: TestFunction,
    /// Whether the handle must hold exclusive control of the device before
    /// the body runs.
    pub master: bool,
    /// The capabilities to enable before the body runs, in order; empty
    /// slots are skipped.
    pub client_capabilities: [Option<ClientCapability>; 8],
}

/// The capabilities held in a sequence of slots, in order, empty slots left out.
pub open spec fn flattened(slots: Seq<Option<ClientCapability>>) -> Seq<ClientCapability>
    decreases slots.len(),
{
    if slots.len() == 0 {
        Seq::empty()
    } else {
        let rest = flattened(slots.drop_last());
        match slots.last() {
            Some(c) => rest.push(c),
            None => rest,
        }
    }
}

/// The capabilities that a test requests, in order.
pub open spec fn requested_capabilities(test: Test) -> Seq<ClientCapability> {
    flattened(test.client_capabilities@)
}

/// The slot `i` of a test that requests `caps`.
pub open spec fn slot_of(caps: Seq<ClientCapability>, i: int) -> Option<ClientCapability> {
    if i < caps.len() {
        Some(caps[i])
    } else {
        None
    }
}

proof fn lemma_flattened_prefix(caps: Seq<ClientCapability>, n: nat)
    requires
        caps.len() <= n,
    ensures
        flattened(Seq::new(n, |i: int| slot_of(caps, i))) == caps,
    decreases n,
{
    let slots = Seq::new(n, |i: int| slot_of(caps, i));
    if n == 0 {
        assert(caps =~= Seq::empty());
    } else if caps.len() == n {
        let shorter = caps.drop_last();
        lemma_flattened_prefix(shorter, (n - 1) as nat);
        assert(slots.drop_last() =~= Seq::new((n - 1) as nat, |i: int| slot_of(shorter, i)));
        assert(shorter.push(caps.last()) =~= caps);
    } else {
        lemma_flattened_prefix(caps, (n - 1) as nat);
        assert(slots.drop_last() =~= Seq::new((n - 1) as nat, |i: int| slot_of(caps, i)));
    }
}

fn slot(caps: &[ClientCapability], i: usize) -> (r: Option<ClientCapability>)
    ensures
        r == slot_of(caps@, i as int),
{
    if i < caps.len() {
        Some(caps[i])
    } else {
        None
    }
}

/// Declares a test whose body takes no argument.
pub fn cgt_test(module_name: &str, test_name: &str) -> (r: Test)
    ensures
        r.module_name@ == module_name@,
        r.test_name@ == test_name@,
        r.test_fn == TestFunction::NoArg,
        !r.master,
        r.client_capabilities@ == Seq::new(8, |i: int| None::<ClientCapability>),
        requested_capabilities(r) == Seq::<ClientCapability>::empty(),
{
    let r = cgt_test_with(module_name, test_name, TestFunction::NoArg, false, &[]);
    assert(r.client_capabilities@ =~= Seq::new(8, |i: int| None::<ClientCapability>));
    r
}

/// Declares a test whose body takes a device handle that holds exclusive
/// control when `master` is set and has each of `capabilities` enabled.
pub fn cgt_test_with_fd(
    module_name: &str,
    test_name: &str,
    master: bool,
    capabilities: &[ClientCapability],
) -> (r: Test)
    requires
        capabilities@.len() <= MAX_CAPABILITIES,
    ensures
        r.module_name@ == module_name@,
        r.test_name@ == test_name@,
        r.test_fn == TestFunction::WithFd,
        r.master == master,
        r.client_capabilities@ == Seq::new(8, |i: int| slot_of(capabilities@, i)),
        requested_capabilities(r) == capabilities@,
{
    cgt_test_with(module_name, test_name, TestFunction::WithFd, master, capabilities)
}

/// Declares a test whose body takes the device's path.
pub fn cgt_test_with_path(module_name: &str, test_name: &str) -> (r: Test)
    ensures
        r.module_name@ == module_name@,
        r.test_name@ == test_name@,
        r.test_fn == TestFunction::WithPath,
        !r.master,
        r.client_capabilities@ == Seq::new(8, |i: int| None::<ClientCapability>),
        requested_capabilities(r) == Seq::<ClientCapability>::empty(),
{
    let r = cgt_test_with(module_name, test_name, TestFunction::WithPath, false, &[]);
    assert(r.client_capabilities@ =~= Seq::new(8, |i: int| None::<ClientCapability>));
    r
}

fn cgt_test_with(
    module_name: &str,
    test_name: &str,
    test_fn: TestFunction,
    master: bool,
    capabilities: &[ClientCapability],
) -> (r: Test)
    requires
        capabilities@.len() <= MAX_CAPABILITIES,
    ensures
        r.module_name@ == module_name@,
        r.test_name@ == test_name@,
        r.test_fn == test_fn,
        r.master == master,
        r.client_capabilities@ == Seq::new(8, |i: int| slot_of(capabilities@, i)),
        requested_capabilities(r) == capabilities@,
{
    let slots = [
        slot(capabilities, 0),
        slot(capabilities, 1),
        slot(capabilities, 2),
        slot(capabilities, 3),
        slot(capabilities, 4),
        slot(capabilities, 5),
        slot(capabilities, 6),
        slot(capabilities, 7),
    ];
    assert(slots@ =~= Seq::new(8, |i: int| slot_of(capabilities@, i)));
    proof {
        lemma_flattened_prefix(capabilities@, 8);
    }
    Test {
        module_name: String::from_str(module_name),
        test_name: String::from_str(test_name),
        test_fn,
        master,
        client_capabilities: slots,
    }
}

/// The indices of the tests of a suite, in registration order.
pub open spec fn indices_with(tests: Seq<Test>, name: Seq<char>) -> Seq<usize>
    decreases tests.len(),
{
    if tests.len() == 0 {
        Seq::empty()
    } else {
        let rest = indices_with(tests.drop_last(), name);
        if tests.last().module_name@ == name {
            rest.push((tests.len() - 1) as usize)
        } else {
            rest
        }
    }
}

proof fn lemma_indices_with(tests: Seq<Test>, name: Seq<char>)
    requires
        tests.len() <= usize::MAX,
    ensures
        forall|j: int|
            0 <= j < indices_with(tests, name).len() ==> {
                let x = #[trigger] indices_with(tests, name)[j];
                &&& x < tests.len()
                &&& tests[x as int].module_name@ == name
            },
    decreases tests.len(),
{
    if tests.len() > 0 {
        let shorter = tests.drop_last();
        lemma_indices_with(shorter, name);
        let all = indices_with(tests, name);
        let rest = indices_with(shorter, name);
        if tests.last().module_name@ == name {
            assert(all == rest.push((tests.len() - 1) as usize));
        } else {
            assert(all == rest);
        }
        assert forall|j: int| 0 <= j < all.len() implies {
            let x = #[trigger] all[j];
            &&& x < tests.len()
            &&& tests[x as int].module_name@ == name
        } by {
            if j < rest.len() {
                let x = rest[j];
                assert(all[j] == x);
                assert(x < shorter.len() && shorter[x as int].module_name@ == name);
                assert(shorter[x as int] == tests[x as int]);
            } else {
                assert(tests.last().module_name@ == name);
                assert(all[j] == (tests.len() - 1) as usize);
            }
        }
    }
}

/// The indices of a module's tests rise strictly, and hold every test of the
/// module.
proof fn lemma_indices_with_order(tests: Seq<Test>, name: Seq<char>)
    requires
        tests.len() <= usize::MAX,
    ensures
        forall|a: int, b: int|
            0 <= a < b < indices_with(tests, name).len() ==> indices_with(tests, name)[a]
                < indices_with(tests, name)[b],
        forall|i: int|
            0 <= i < tests.len() && #[trigger] tests[i].module_name@ == name ==> indices_with(
                tests,
                name,
            ).contains(i as usize),
    decreases tests.len(),
{
    lemma_indices_with(tests, name);
    if tests.len() > 0 {
        let shorter = tests.drop_last();
        let all = indices_with(tests, name);
        let rest = indices_with(shorter, name);
        lemma_indices_with_order(shorter, name);
        lemma_indices_with(shorter, name);
        assert forall|i: int|
            0 <= i < tests.len() && #[trigger] tests[i].module_name@ == name implies all.contains(
            i as usize,
        ) by {
            if i < shorter.len() {
                assert(shorter[i] == tests[i]);
                assert(rest.contains(i as usize));
                let p = choose|p: int| 0 <= p < rest.len() && rest[p] == i as usize;
                assert(all[p] == rest[p]);
            } else {
                assert(all[all.len() - 1] == i as usize);
            }
        }
    }
}

/// Whether `suites` is the grouping of `tests` by module, as
/// [`Registry::get_test_suites`] returns it.
pub open spec fn grouped(tests: Seq<Test>, suites: Seq<Suite>) -> bool {
    &&& forall|k: int|
        0 <= k < suites.len() ==> #[trigger] suites[k].members@ == indices_with(tests, suites[k].name@)
    &&& forall|k: int| 0 <= k < suites.len() ==> #[trigger] suites[k].members.len() > 0
    &&& forall|i: int| 0 <= i < tests.len() ==> has_suite(suites, #[trigger] tests[i].module_name@)
    &&& forall|k1: int, k2: int|
        0 <= k1 < k2 < suites.len() ==> suites[k1].members[0] < suites[k2].members[0]
}

/// In a grouping, suite names differ, each suite's indices rise strictly and
/// name tests of that suite, and each test is in the suite of its module.
pub proof fn lemma_grouped(tests: Seq<Test>, suites: Seq<Suite>)
    requires
        tests.len() <= usize::MAX,
        grouped(tests, suites),
    ensures
        forall|k1: int, k2: int|
            0 <= k1 < suites.len() && 0 <= k2 < suites.len() && k1 != k2 ==> #[trigger] suites[k1].name@
                != #[trigger] suites[k2].name@,
        forall|k: int, a: int, b: int|
            0 <= k < suites.len() && 0 <= a < b < suites[k].members.len() ==> #[trigger] suites[k].members[a]
                < #[trigger] suites[k].members[b],
        forall|k: int, a: int|
            0 <= k < suites.len() && 0 <= a < suites[k].members.len() ==> {
                let x = #[trigger] suites[k].members[a];
                &&& x < tests.len()
                &&& tests[x as int].module_name@ == suites[k].name@
            },
        forall|k: int, i: int|
            0 <= k < suites.len() && 0 <= i < tests.len() && #[trigger] tests[i].module_name@
                == #[trigger] suites[k].name@ ==> suites[k].members@.contains(i as usize),
{
    assert forall|k1: int, k2: int|
        0 <= k1 < suites.len() && 0 <= k2 < suites.len() && k1 != k2 implies #[trigger] suites[k1].name@
        != #[trigger] suites[k2].name@ by {
        if suites[k1].name@ == suites[k2].name@ {
            assert(suites[k1].members@ == suites[k2].members@);
            assert(suites[k1].members@[0] == suites[k2].members@[0]);
            if k1 < k2 {
                assert(suites[k1].members[0] < suites[k2].members[0]);
            } else {
                assert(suites[k2].members[0] < suites[k1].members[0]);
            }
        }
    }
    assert forall|k: int, a: int, b: int|
        0 <= k < suites.len() && 0 <= a < b < suites[k].members.len() implies #[trigger] suites[k].members[a]
        < #[trigger] suites[k].members[b] by {
        lemma_indices_with_order(tests, suites[k].name@);
    }
    assert forall|k: int, a: int|
        0 <= k < suites.len() && 0 <= a < suites[k].members.len() implies {
        let x = #[trigger] suites[k].members[a];
        &&& x < tests.len()
        &&& tests[x as int].module_name@ == suites[k].name@
    } by {
        lemma_indices_with(tests, suites[k].name@);
        assert(suites[k].members@[a] == indices_with(tests, suites[k].name@)[a]);
    }
    assert forall|k: int, i: int|
        0 <= k < suites.len() && 0 <= i < tests.len() && #[trigger] tests[i].module_name@
            == #[trigger] suites[k].name@ implies suites[k].members@.contains(i as usize) by {
        lemma_indices_with_order(tests, suites[k].name@);
    }
}

/// The tests of one module: its name and the registry indices of its tests,
/// in registration order.
#[derive(Clone, Debug)]
pub struct Suite {
    pub name: String,
    pub members: Vec<usize>,
}

/// Whether one of `suites` is named `name`.
pub open spec fn has_suite(suites: Seq<Suite>, name: Seq<char>) -> bool {
    exists|k: int| 0 <= k < suites.len() && #[trigger] suites[k].name@ == name
}

/// Everything that a run may execute, in registration order. Tests are only
/// ever added.
pub struct Registry {
    tests: Vec<Test>,
}

impl View for Registry {
    type V = Seq<Test>;

    closed spec fn view(&self) -> Seq<Test> {
        self.tests@
    }
}

impl Registry {
    pub fn new() -> (r: Registry)
        ensures
            r@ == Seq::<Test>::empty(),
    {
        Registry { tests: Vec::new() }
    }

    /// Adds a test and returns its index.
    pub fn register(&mut self, test: Test) -> (index: usize)
        ensures
            final(self)@ == old(self)@.push(test),
            index == old(self)@.len(),
    {
        let index = self.tests.len();
        self.tests.push(test);
        index
    }

    /// Takes the registered tests out of the registry, in registration order.
    pub fn into_tests(self) -> (r: Vec<Test>)
        ensures
            r@ == self@,
    {
        self.tests
    }

    pub fn tests(&self) -> (r: &Vec<Test>)
        ensures
            r@ == self@,
    {
        &self.tests
    }

    /// The registered tests grouped by module: one suite per module name, each
    /// with the indices of that module's tests in registration order, the
    /// suites in the order in which their modules first registered a test.
    pub fn get_test_suites(&self) -> (r: Vec<Suite>)
        ensures
            grouped(self@, r@),
    {
        let tests = &self.tests;
        let mut suites: Vec<Suite> = Vec::new();
        let mut i: usize = 0;
        while i < tests.len()
            invariant
                i <= tests@.len(),
                tests@ == self@,
                forall|k: int|
                    0 <= k < suites.len() ==> #[trigger] suites[k].members@ == indices_with(
                        tests@.subrange(0, i as int),
                        suites[k].name@,
                    ),
                forall|k: int| 0 <= k < suites.len() ==> #[trigger] suites[k].members.len() > 0,
                forall|j: int| 0 <= j < i ==> has_suite(suites@, #[trigger] tests@[j].module_name@),
                forall|k1: int, k2: int|
                    0 <= k1 < k2 < suites.len() ==> suites[k1].members[0] < suites[k2].members[0],
                forall|k: int| 0 <= k < suites.len() ==> #[trigger] suites[k].members[0] < i,
            decreases tests.len() - i,
        {
            let ghost before = tests@.subrange(0, i as int);
            let ghost after = tests@.subrange(0, i + 1);
            assert(after.drop_last() =~= before);
            let name = &tests[i].module_name;
            let mut found: Option<usize> = None;
            let mut k: usize = 0;
            while k < suites.len()
                invariant
                    k <= suites.len(),
                    found matches Some(f) ==> f < suites.len() && suites[f as int].name@ == name@,
                    found is None ==> forall|m: int| 0 <= m < k ==> suites[m].name@ != name@,
                decreases suites.len() - k,
            {
                if found.is_none() && suites[k].name == *name {
                    found = Some(k);
                }
                k += 1;
            }
            match found {
                Some(f) => {
                    let ghost old_suites = suites@;
                    suites[f].members.push(i);
                    assert(suites[f as int].members@ == old_suites[f as int].members@.push(i));
                    assert forall|m: int| 0 <= m < suites.len() implies #[trigger] suites[m].members[0]
                        == old_suites[m].members[0] by {
                        if m == f {
                            assert(old_suites[m].members.len() > 0);
                        } else {
                            assert(suites[m] == old_suites[m]);
                        }
                    }
                    assert forall|m: int| 0 <= m < suites.len() implies #[trigger] suites[m].members@
                        == indices_with(after, suites[m].name@) by {
                        if m != f {
                            assert(suites[m] == old_suites[m]);
                        }
                    }
                    assert forall|j: int| 0 <= j < i + 1 implies has_suite(
                        suites@,
                        #[trigger] tests@[j].module_name@,
                    ) by {
                        if j < i {
                            assert(has_suite(old_suites, tests@[j].module_name@));
                            let m = choose|m: int|
                                0 <= m < old_suites.len() && #[trigger] old_suites[m].name@
                                    == tests@[j].module_name@;
                            assert(suites[m].name@ == old_suites[m].name@);
                        } else {
                            assert(suites[f as int].name@ == tests@[j].module_name@);
                        }
                    }
                    assert forall|k1: int, k2: int|
                        0 <= k1 < k2 < suites.len() implies suites[k1].members[0]
                        < suites[k2].members[0] by {
                        assert(old_suites[k1].members[0] < old_suites[k2].members[0]);
                        assert(suites[k1].members[0] == old_suites[k1].members[0]);
                        assert(suites[k2].members[0] == old_suites[k2].members[0]);
                    }
                },
                None => {
                    proof {
                        lemma_indices_with(before, name@);
                        if indices_with(before, name@).len() > 0 {
                            let x = indices_with(before, name@)[0];
                            assert(tests@[x as int].module_name@ == name@);
                            assert(has_suite(suites@, tests@[x as int].module_name@));
                            let m = choose|m: int|
                                0 <= m < suites.len() && #[trigger] suites[m].name@
                                    == tests@[x as int].module_name@;
                            assert(false);
                        }
                    }
                    let ghost old_suites = suites@;
                    let mut members: Vec<usize> = Vec::new();
                    members.push(i);
                    suites.push(Suite { name: name.clone(), members });
                    assert(indices_with(after, name@) =~= seq![i]);
                    assert forall|j: int| 0 <= j < i + 1 implies has_suite(
                        suites@,
                        #[trigger] tests@[j].module_name@,
                    ) by {
                        if j < i {
                            assert(has_suite(old_suites, tests@[j].module_name@));
                            let m = choose|m: int|
                                0 <= m < old_suites.len() && #[trigger] old_suites[m].name@
                                    == tests@[j].module_name@;
                            assert(suites[m] == old_suites[m]);
                        } else {
                            assert(suites[old_suites.len() as int].name@ == tests@[j].module_name@);
                        }
                    }
                },
            }
            i += 1;
        }
        assert(tests@.subrange(0, tests@.len() as int) =~= tests@);
        assert forall|j: int| 0 <= j < self@.len() implies has_suite(
            suites@,
            #[trigger] self@[j].module_name@,
        ) by {
            assert(tests@[j] == self@[j]);
        }
        suites
    }
}

} // verus!
