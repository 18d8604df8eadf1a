//! The run of one test as a state machine: the device setup its descriptor
//! asks for, then its body; and the verdict of a whole run.

use vstd::prelude::*;

use crate::error::TestResult;
use crate::registry::{flattened, Test, TestFunction};
use crate::uapi::ClientCapability;

verus! {

/// What the harness must do next for the test being run.
#[derive(Debug)]
pub enum Step {
    /// Open a fresh handle to the device.
    OpenDevice,
    /// Claim exclusive control of the device on the handle.
    ClaimControl,
    /// Enable one capability on the handle.
    EnableCapability(ClientCapability),
    /// Call the body with the calling convention it declared.
    InvokeBody,
    /// Close the handle, if one is open, and report the outcome.
    Finish(TestResult),
}

/// Where a test run stands.
#[derive(Clone, Copy, Debug, PartialEq, Eq, Structural)]
pub enum Phase {
    Opening,
    Claiming,
    /// Enabling the capability in the given slot.
    Enabling(usize),
    Invoking,
    Done,
}

/// What the harness has established on a test's device handle.
pub struct HandleState {
    pub open: bool,
    pub control: bool,
    /// The capabilities enabled so far, in order.
    pub enabled: Seq<ClientCapability>,
}

/// No handle, and so nothing held.
pub open spec fn released() -> HandleState {
    HandleState { open: false, control: false, enabled: Seq::empty() }
}

/// The first filled slot at or after `i`, or the number of slots if none is.
pub open spec fn first_filled(slots: Seq<Option<ClientCapability>>, i: int) -> int
    decreases slots.len() - i,
{
    if i >= slots.len() || i < 0 {
        slots.len() as int
    } else if slots[i] is Some {
        i
    } else {
        first_filled(slots, i + 1)
    }
}

/// The phase and step that follow once every slot before `i` is dealt with.
pub open spec fn enable_from(slots: Seq<Option<ClientCapability>>, i: int) -> (Phase, Step) {
    let j = first_filled(slots, i);
    if j < slots.len() {
        (Phase::Enabling(j as usize), Step::EnableCapability(slots[j]->0))
    } else {
        (Phase::Invoking, Step::InvokeBody)
    }
}

proof fn lemma_skip_empty(slots: Seq<Option<ClientCapability>>, i: int)
    requires
        0 <= i <= slots.len(),
    ensures
        flattened(slots.subrange(0, first_filled(slots, i))) == flattened(slots.subrange(0, i)),
        i <= first_filled(slots, i) <= slots.len(),
    decreases slots.len() - i,
{
    if i < slots.len() && slots[i] is None {
        lemma_skip_empty(slots, i + 1);
        assert(slots.subrange(0, i + 1).drop_last() =~= slots.subrange(0, i));
    }
}

proof fn lemma_enable_one(slots: Seq<Option<ClientCapability>>, i: int)
    requires
        0 <= i < slots.len(),
        slots[i] is Some,
    ensures
        flattened(slots.subrange(0, i + 1)) == flattened(slots.subrange(0, i)).push(slots[i]->0),
{
    assert(slots.subrange(0, i + 1).drop_last() =~= slots.subrange(0, i));
}

/// The run of one test: the device setup that its descriptor asks for, then
/// its body. The harness performs each step and reports how it went; a failed
/// setup step ends the run with that failure, and the body is never called.
pub struct TestRun {
    test_fn: TestFunction,
    master: bool,
    slots: [Option<ClientCapability>; 8],
    phase: Phase,
}

impl TestRun {
    pub closed spec fn test_fn(&self) -> TestFunction {
        self.test_fn
    }

    pub closed spec fn master(&self) -> bool {
        self.master
    }

    pub closed spec fn slots(&self) -> Seq<Option<ClientCapability>> {
        self.slots@
    }

    pub closed spec fn phase(&self) -> Phase {
        self.phase
    }

    /// Whether the run is over.
    pub open spec fn done(&self) -> bool {
        self.phase() == Phase::Done
    }

    /// What has been established on the handle, from the steps that succeeded.
    pub open spec fn handle(&self) -> HandleState {
        match self.phase() {
            Phase::Opening | Phase::Done => released(),
            Phase::Claiming => HandleState { open: true, control: false, enabled: Seq::empty() },
            Phase::Enabling(i) => HandleState {
                open: true,
                control: self.master(),
                enabled: flattened(self.slots().subrange(0, i as int)),
            },
            Phase::Invoking => if self.test_fn() == TestFunction::WithFd {
                HandleState { open: true, control: self.master(), enabled: flattened(self.slots()) }
            } else {
                released()
            },
        }
    }

    /// This run with its phase moved to `phase`.
    pub closed spec fn at(self, phase: Phase) -> TestRun {
        TestRun { test_fn: self.test_fn, master: self.master, slots: self.slots, phase }
    }

    /// The transition of a run that is not over: the run and the step that
    /// follow once the step last handed out ended with `outcome`. After the
    /// body, or after any failed setup step, the run finishes with that
    /// outcome; after a successful open comes the claim of exclusive control
    /// when the test asks for it, then each requested capability in slot
    /// order, then the body.
    pub open spec fn next_of(self, outcome: TestResult) -> (TestRun, Step) {
        if self.phase() == Phase::Invoking || outcome is Failure {
            (self.at(Phase::Done), Step::Finish(outcome))
        } else {
            match self.phase() {
                Phase::Opening => if self.master() {
                    (self.at(Phase::Claiming), Step::ClaimControl)
                } else {
                    (self.at(enable_from(self.slots(), 0).0), enable_from(self.slots(), 0).1)
                },
                Phase::Claiming => (
                    self.at(enable_from(self.slots(), 0).0),
                    enable_from(self.slots(), 0).1,
                ),
                Phase::Enabling(i) => (
                    self.at(enable_from(self.slots(), i + 1).0),
                    enable_from(self.slots(), i + 1).1,
                ),
                _ => (self.at(Phase::Done), Step::Finish(outcome)),
            }
        }
    }

    /// How far the run is from its end: every step lowers it.
    pub open spec fn remaining(&self) -> nat {
        match self.phase() {
            Phase::Opening => 11,
            Phase::Claiming => 10,
            Phase::Enabling(i) => if i < 8 {
                (9 - i) as nat
            } else {
                1
            },
            Phase::Invoking => 1,
            Phase::Done => 0,
        }
    }

    /// Whether the run's phase is one its descriptor allows.
    pub closed spec fn wf(&self) -> bool {
        &&& self.slots@.len() == 8
        &&& self.phase matches Phase::Enabling(i) ==> i < 8 && self.slots@[i as int] is Some
        &&& (self.phase == Phase::Opening || self.phase == Phase::Claiming
            || self.phase is Enabling) ==> self.test_fn == TestFunction::WithFd
        &&& self.phase == Phase::Claiming ==> self.master
    }

    /// The run of `test` before its first step: it depends on the descriptor
    /// alone.
    pub closed spec fn fresh(test: Test) -> TestRun {
        TestRun {
            test_fn: test.test_fn,
            master: test.master,
            slots: test.client_capabilities,
            phase: if test.test_fn == TestFunction::WithFd {
                Phase::Opening
            } else {
                Phase::Invoking
            },
        }
    }

    /// Begins the run of `test`: a body that takes a handle waits for the
    /// device to be opened; any other body is called at once.
    pub fn start(test: &Test) -> (r: (TestRun, Step))
        ensures
            r.0 == TestRun::fresh(*test),
            r.0.wf(),
            r.0.test_fn() == test.test_fn,
            r.0.master() == test.master,
            r.0.slots() == test.client_capabilities@,
            test.test_fn == TestFunction::WithFd ==> r.0.phase() == Phase::Opening
                && r.1 == Step::OpenDevice,
            test.test_fn != TestFunction::WithFd ==> r.0.phase() == Phase::Invoking
                && r.1 == Step::InvokeBody,
            r.0.handle() == released(),
    {
        let phase = if test.test_fn == TestFunction::WithFd {
            Phase::Opening
        } else {
            Phase::Invoking
        };
        let run = TestRun {
            test_fn: test.test_fn,
            master: test.master,
            slots: test.client_capabilities,
            phase,
        };
        let step = if test.test_fn == TestFunction::WithFd {
            Step::OpenDevice
        } else {
            Step::InvokeBody
        };
        (run, step)
    }

    /// Moves to the first filled slot at or after `i`, or to the body when
    /// no slot is left.
    fn enable_next(&mut self, i: usize) -> (step: Step)
        requires
            old(self).wf(),
            old(self).test_fn == TestFunction::WithFd,
            i <= 8,
        ensures
            final(self).wf(),
            final(self).test_fn == old(self).test_fn,
            final(self).master == old(self).master,
            final(self).slots == old(self).slots,
            (final(self).phase, step) == enable_from(old(self).slots@, i as int),
            *final(self) == old(self).at(final(self).phase),
            final(self).phase matches Phase::Enabling(j) ==> i <= j < 8,
            final(self).handle().enabled == flattened(old(self).slots@.subrange(0, i as int)),
    {
        proof {
            lemma_skip_empty(self.slots@, i as int);
            assert(self.slots@.subrange(0, 8) =~= self.slots@);
        }
        let mut j: usize = i;
        while j < 8 && self.slots[j].is_none()
            invariant
                i <= j <= 8,
                self.wf(),
                self.test_fn == TestFunction::WithFd,
                self.slots@.len() == 8,
                first_filled(self.slots@, i as int) == first_filled(self.slots@, j as int),
            decreases 8 - j,
        {
            j += 1;
        }
        if j < 8 {
            let cap = self.slots[j].unwrap();
            self.phase = Phase::Enabling(j);
            Step::EnableCapability(cap)
        } else {
            self.phase = Phase::Invoking;
            Step::InvokeBody
        }
    }

    /// Takes the outcome of the step last handed out and returns the next one.
    pub fn advance(&mut self, outcome: TestResult) -> (step: Step)
        requires
            old(self).wf(),
            !old(self).done(),
        ensures
            (*final(self), step) == old(self).next_of(outcome),
            final(self).remaining() < old(self).remaining(),
            final(self).wf(),
            final(self).test_fn() == old(self).test_fn(),
            final(self).master() == old(self).master(),
            final(self).slots() == old(self).slots(),
            step is Finish ==> final(self).handle() == released(),
            step is InvokeBody && old(self).test_fn() == TestFunction::WithFd ==> final(self).handle()
                == (HandleState {
                open: true,
                control: old(self).master(),
                enabled: flattened(old(self).slots()),
            }),
            old(self).phase() == Phase::Opening && outcome is Success ==> final(self).handle() == (
            HandleState { open: true, control: false, enabled: Seq::empty() }),
            old(self).phase() == Phase::Claiming && outcome is Success ==> final(self).handle() == (
            HandleState { open: true, control: true, enabled: Seq::empty() }),
            old(self).phase() matches Phase::Enabling(i) ==> (outcome is Success ==> final(self).handle()
                == (HandleState {
                open: true,
                control: old(self).master(),
                enabled: old(self).handle().enabled.push(old(self).slots()[i as int]->0),
            })),
            old(self).phase() == Phase::Invoking ==> final(self).done() && step == Step::Finish(
                outcome,
            ),
            old(self).phase() != Phase::Invoking && outcome is Failure ==> final(self).done()
                && step == Step::Finish(outcome),
            old(self).phase() == Phase::Opening && outcome is Success ==> if old(self).master() {
                final(self).phase() == Phase::Claiming && step == Step::ClaimControl
            } else {
                (final(self).phase(), step) == enable_from(old(self).slots(), 0)
            },
            old(self).phase() == Phase::Claiming && outcome is Success ==> (final(self).phase(), step)
                == enable_from(old(self).slots(), 0),
            old(self).phase() matches Phase::Enabling(i) ==> (outcome is Success ==> (
            final(self).phase(),
            step,
            ) == enable_from(old(self).slots(), i + 1)),
    {
        match self.phase {
            Phase::Invoking => {
                self.phase = Phase::Done;
                Step::Finish(outcome)
            },
            _ => {
                if let TestResult::Failure(_) = outcome {
                    self.phase = Phase::Done;
                    Step::Finish(outcome)
                } else {
                    match self.phase {
                        Phase::Opening => {
                            if self.master {
                                self.phase = Phase::Claiming;
                                Step::ClaimControl
                            } else {
                                assert(self.slots@.subrange(0, 0) =~= Seq::empty());
                                self.enable_next(0)
                            }
                        },
                        Phase::Claiming => {
                            assert(self.slots@.subrange(0, 0) =~= Seq::empty());
                            self.enable_next(0)
                        },
                        Phase::Enabling(i) => {
                            proof {
                                lemma_enable_one(self.slots@, i as int);
                            }
                            self.enable_next(i + 1)
                        },
                        _ => Step::Finish(outcome),
                    }
                }
            },
        }
    }
}

/// No device state passes from one test to the next: a finished run holds no
/// handle, no exclusive control and no capability, and the run of any test
/// begins with none of them, whatever ran before it.
pub proof fn lemma_runs_are_isolated(previous: TestRun, next: Test)
    requires
        previous.done(),
    ensures
        previous.handle() == released(),
        TestRun::fresh(next).handle() == released(),
        !TestRun::fresh(next).handle().control,
        TestRun::fresh(next).handle().enabled.len() == 0,
{
}

/// The verdict of a whole run.
#[derive(Clone, Copy, Debug, PartialEq, Eq, Structural)]
pub enum RunResult {
    Success,
    Failure,
}

impl RunResult {
    /// The verdict after one more outcome: any failure fails the run.
    pub fn record(self, outcome: &TestResult) -> (r: RunResult)
        ensures
            r == (if self == RunResult::Success && outcome is Success {
                RunResult::Success
            } else {
                RunResult::Failure
            }),
    {
        match (self, outcome) {
            (RunResult::Success, TestResult::Success) => RunResult::Success,
            _ => RunResult::Failure,
        }
    }

    /// The process exit status: zero exactly when every test passed.
    pub fn report(self) -> (code: u8)
        ensures
            code == 0 <==> self == RunResult::Success,
            self == RunResult::Failure ==> code == 1,
    {
        match self {
            RunResult::Success => 0,
            RunResult::Failure => 1,
        }
    }
}

impl<U, E> From<Result<U, E>> for RunResult {
    /// A success for `Ok`, a failure for `Err`.
    fn from(value: Result<U, E>) -> (r: RunResult) {
        match value {
            Ok(_) => RunResult::Success,
            Err(_) => RunResult::Failure,
        }
    }
}

impl<U, E> vstd::std_specs::convert::FromSpecImpl<Result<U, E>> for RunResult {
    open spec fn obeys_from_spec() -> bool {
        true
    }

    open spec fn from_spec(v: Result<U, E>) -> RunResult {
        if v is Ok {
            RunResult::Success
        } else {
            RunResult::Failure
        }
    }
}

} // verus!
