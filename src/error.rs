//! Why a test fails, and the outcome of a test.

use vstd::prelude::*;
use vstd::string::StringExecFns;

verus! {

/// Why a test failed.
#[derive(Debug, Clone)]
pub enum TestError {
    /// A checked condition, given by its source text, was false.
    ConditionUnmet(String),
    /// An I/O operation failed; the payload is the operating system's error
    /// code, when there was one. Two such errors are equal when their codes are.
    Io(Option<i32>),
    /// Two values, given by their renderings, differ.
    NotEqual(String, String),
    /// A result, given by its rendering, was expected to be an error.
    ResultNotError(String),
    /// A result, given by its rendering, was expected to be a value.
    ResultNotOk(String),
    /// No candidate device is bound to the requested driver.
    NoSuchDevice,
    /// A device call failed without an operating system error code.
    Unspecified,
}

/// The mathematical content of a [`TestError`].
pub enum ErrorView {
    ConditionUnmet(Seq<char>),
    Io(Option<i32>),
    NotEqual(Seq<char>, Seq<char>),
    ResultNotError(Seq<char>),
    ResultNotOk(Seq<char>),
    NoSuchDevice,
    Unspecified,
}

impl View for TestError {
    type V = ErrorView;

    open spec fn view(&self) -> ErrorView {
        match self {
            TestError::ConditionUnmet(s) => ErrorView::ConditionUnmet(s@),
            TestError::Io(c) => ErrorView::Io(*c),
            TestError::NotEqual(l, r) => ErrorView::NotEqual(l@, r@),
            TestError::ResultNotError(s) => ErrorView::ResultNotError(s@),
            TestError::ResultNotOk(s) => ErrorView::ResultNotOk(s@),
            TestError::NoSuchDevice => ErrorView::NoSuchDevice,
            TestError::Unspecified => ErrorView::Unspecified,
        }
    }
}

/// The human-readable message of an error, as a report shows it.
pub open spec fn description(e: ErrorView) -> Seq<char> {
    match e {
        ErrorView::ConditionUnmet(s) => "Condition "@ + s + " is not true"@,
        ErrorView::Io(_) => "I/O Error"@,
        ErrorView::NotEqual(l, r) => "Values "@ + l + " and "@ + r + " are not equal"@,
        ErrorView::ResultNotError(s) => "Result "@ + s + " isn't an error"@,
        ErrorView::ResultNotOk(s) => "Result "@ + s + " isn't a value"@,
        ErrorView::NoSuchDevice => "No such device"@,
        ErrorView::Unspecified => "Unknown Error"@,
    }
}

/// nix's error number, carried opaquely.
#[verifier::external_type_specification]
#[verifier::external_body]
pub struct ExErrno(nix::errno::Errno);

/// Relies on nix's `Errno` being a `#[repr(i32)]` enum whose discriminants are
/// the platform's error numbers: the cast hands back the raw code, as nix's own
/// conversion into `std::io::Error` does.
#[verifier::external_body]
fn errno_code(e: nix::errno::Errno) -> (r: i32) {
    e as i32
}

impl TestError {
    /// The error that a failed device call reports through nix: an I/O error
    /// carrying the call's error number.
    pub fn from_errno(e: nix::errno::Errno) -> (r: TestError)
        ensures
            r@ matches ErrorView::Io(code) && code is Some,
    {
        TestError::Io(Some(errno_code(e)))
    }

    /// The human-readable message of this error.
    pub fn description(&self) -> (r: String)
        ensures
            r@ == description(self@),
    {
        match self {
            TestError::ConditionUnmet(s) => {
                let mut r = String::from_str("Condition ");
                r.append(s.as_str());
                r.append(" is not true");
                r
            },
            TestError::Io(_) => String::from_str("I/O Error"),
            TestError::NotEqual(l, rt) => {
                let mut r = String::from_str("Values ");
                r.append(l.as_str());
                r.append(" and ");
                r.append(rt.as_str());
                r.append(" are not equal");
                r
            },
            TestError::ResultNotError(s) => {
                let mut r = String::from_str("Result ");
                r.append(s.as_str());
                r.append(" isn't an error");
                r
            },
            TestError::ResultNotOk(s) => {
                let mut r = String::from_str("Result ");
                r.append(s.as_str());
                r.append(" isn't a value");
                r
            },
            TestError::NoSuchDevice => String::from_str("No such device"),
            TestError::Unspecified => String::from_str("Unknown Error"),
        }
    }
}

impl PartialEq for TestError {
    /// Errors are equal when they are of one kind and carry equal payloads;
    /// I/O errors compare by their operating system error code alone.
    fn eq(&self, other: &TestError) -> (r: bool) {
        match (self, other) {
            (TestError::ConditionUnmet(l0), TestError::ConditionUnmet(r0)) => *l0 == *r0,
            (TestError::Io(l0), TestError::Io(r0)) => match (l0, r0) {
                (Some(a), Some(b)) => *a == *b,
                (None, None) => true,
                _ => false,
            },
            (TestError::NotEqual(l0, l1), TestError::NotEqual(r0, r1)) => *l0 == *r0 && *l1 == *r1,
            (TestError::ResultNotError(l0), TestError::ResultNotError(r0)) => *l0 == *r0,
            (TestError::ResultNotOk(l0), TestError::ResultNotOk(r0)) => *l0 == *r0,
            (TestError::NoSuchDevice, TestError::NoSuchDevice) => true,
            (TestError::Unspecified, TestError::Unspecified) => true,
            _ => false,
        }
    }
}

impl vstd::std_specs::cmp::PartialEqSpecImpl for TestError {
    open spec fn obeys_eq_spec() -> bool {
        true
    }

    open spec fn eq_spec(&self, other: &TestError) -> bool {
        self@ == other@
    }
}

/// The outcome of one test.
#[derive(Debug, Clone)]
pub enum TestResult {
    Success,
    Failure(TestError),
}

impl View for TestResult {
    type V = Option<ErrorView>;

    /// `None` for a success, the error's content for a failure.
    open spec fn view(&self) -> Option<ErrorView> {
        match self {
            TestResult::Success => None,
            TestResult::Failure(e) => Some(e@),
        }
    }
}

impl PartialEq for TestResult {
    fn eq(&self, other: &TestResult) -> (r: bool) {
        match (self, other) {
            (TestResult::Success, TestResult::Success) => true,
            (TestResult::Failure(a), TestResult::Failure(b)) => a == b,
            _ => false,
        }
    }
}

impl vstd::std_specs::cmp::PartialEqSpecImpl for TestResult {
    open spec fn obeys_eq_spec() -> bool {
        true
    }

    open spec fn eq_spec(&self, other: &TestResult) -> bool {
        self@ == other@
    }
}

impl From<Result<(), TestError>> for TestResult {
    /// A body's `Ok(())` is a success, its error a failure.
    fn from(value: Result<(), TestError>) -> (r: TestResult) {
        match value {
            Ok(()) => TestResult::Success,
            Err(e) => TestResult::Failure(e),
        }
    }
}

impl vstd::std_specs::convert::FromSpecImpl<Result<(), TestError>> for TestResult {
    open spec fn obeys_from_spec() -> bool {
        true
    }

    open spec fn from_spec(v: Result<(), TestError>) -> TestResult {
        match v {
            Ok(_) => TestResult::Success,
            Err(e) => TestResult::Failure(e),
        }
    }
}

} // verus!
