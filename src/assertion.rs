//! The checks that test bodies make: each returns `Ok(())` when it holds and
//! otherwise the failure that describes it, for the body to return at once.

use vstd::prelude::*;
use vstd::string::StringExecFns;

use crate::error::{ErrorView, TestError};
use crate::render::Operand;

verus! {

/// Checks a condition given with its source text: `Ok` when it holds, else the
/// failure that names the expression. A test body returns the error at once
/// (`cgt_assert(x > 0, "x > 0")?`).
pub fn cgt_assert(condition: bool, expression: &str) -> (r: Result<(), TestError>)
    ensures
        r is Ok <==> condition,
        r matches Err(e) ==> e@ == ErrorView::ConditionUnmet(expression@),
{
    if condition {
        Ok(())
    } else {
        Err(TestError::ConditionUnmet(String::from_str(expression)))
    }
}

/// Checks that two values are equal; when they are not, the failure carries
/// the rendering of each.
pub fn cgt_assert_eq<T: Operand>(left: &T, right: &T) -> (r: Result<(), TestError>)
    ensures
        r is Ok <==> left.same_as(right),
        r matches Err(e) ==> e@ == ErrorView::NotEqual(left.rendered(), right.rendered()),
{
    if left.equals(right) {
        Ok(())
    } else {
        Err(TestError::NotEqual(left.render(), right.render()))
    }
}

/// Checks that a fallible operation succeeded; when it did not, the failure
/// carries the rendering of the result.
pub fn cgt_assert_ok<T: Operand, E: Operand>(value: &Result<T, E>) -> (r: Result<(), TestError>)
    ensures
        r is Ok <==> value is Ok,
        r matches Err(e) ==> e@ == ErrorView::ResultNotOk(value.rendered()),
{
    if value.is_ok() {
        Ok(())
    } else {
        Err(TestError::ResultNotOk(value.render()))
    }
}

/// Checks that a fallible operation failed; when it did not, the failure
/// carries the rendering of the result.
pub fn cgt_assert_err<T: Operand, E: Operand>(value: &Result<T, E>) -> (r: Result<(), TestError>)
    ensures
        r is Ok <==> value is Err,
        r matches Err(e) ==> e@ == ErrorView::ResultNotError(value.rendered()),
{
    if value.is_err() {
        Ok(())
    } else {
        Err(TestError::ResultNotError(value.render()))
    }
}

} // verus!
