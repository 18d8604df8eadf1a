use cgt::{cgt_assert, cgt_assert_eq, cgt_assert_err, cgt_assert_ok, TestError, TestResult};

#[test]
fn cgt_assert_bool_true() {
    let test = || -> Result<(), TestError> {
        cgt_assert(true, "true")?;
        Ok(())
    };

    assert_eq!(TestResult::from(test()), TestResult::Success);
}

#[test]
fn cgt_assert_bool_false() {
    let test = || -> Result<(), TestError> {
        cgt_assert(false, "false")?;
        unreachable!()
    };

    assert_eq!(
        TestResult::from(test()),
        TestResult::Failure(TestError::ConditionUnmet(String::from("false")))
    );
}

#[test]
fn cgt_assert_expr_true() {
    let test = || -> Result<(), TestError> {
        cgt_assert(1 < 2, "1 < 2")?;
        Ok(())
    };

    assert_eq!(TestResult::from(test()), TestResult::Success);
}

#[test]
fn cgt_assert_expr_false() {
    let test = || -> Result<(), TestError> {
        cgt_assert(1 > 2, "1 > 2")?;
        unreachable!()
    };

    assert_eq!(
        TestResult::from(test()),
        TestResult::Failure(TestError::ConditionUnmet(String::from("1 > 2")))
    );
}

#[test]
fn cgt_assert_eq_bool_true() {
    let test = || -> Result<(), TestError> {
        cgt_assert_eq(&true, &true)?;
        Ok(())
    };

    assert_eq!(TestResult::from(test()), TestResult::Success);
}

#[test]
fn cgt_assert_eq_bool_false() {
    let test = || -> Result<(), TestError> {
        cgt_assert_eq(&true, &false)?;
        unreachable!()
    };

    assert_eq!(
        TestResult::from(test()),
        TestResult::Failure(TestError::NotEqual(
            String::from("true"),
            String::from("false")
        ))
    );
}

#[test]
fn cgt_assert_eq_expr_true() {
    let test = || -> Result<(), TestError> {
        cgt_assert_eq(&(1 + 1), &2)?;
        Ok(())
    };

    assert_eq!(TestResult::from(test()), TestResult::Success);
}

#[test]
fn cgt_assert_eq_expr_false() {
    let test = || -> Result<(), TestError> {
        cgt_assert_eq(&(1 + 1), &3)?;
        unreachable!()
    };

    assert_eq!(
        TestResult::from(test()),
        TestResult::Failure(TestError::NotEqual(String::from("2"), String::from("3")))
    );
}

#[test]
fn cgt_assert_ok_true() {
    let test = || -> Result<(), TestError> {
        cgt_assert_ok(&Ok::<(), TestError>(()))?;
        Ok(())
    };

    assert_eq!(TestResult::from(test()), TestResult::Success);
}

#[test]
fn cgt_assert_ok_false() {
    let test = || -> Result<(), TestError> {
        cgt_assert_ok(&Err::<(), TestError>(TestError::Unspecified))?;
        Ok(())
    };

    assert_eq!(
        TestResult::from(test()),
        TestResult::Failure(TestError::ResultNotOk(String::from(
            "Err(\n    Unspecified,\n)"
        )))
    );
}

#[test]
fn cgt_assert_err_true() {
    let test = || -> Result<(), TestError> {
        cgt_assert_err(&Err::<(), TestError>(TestError::Unspecified))?;
        Ok(())
    };

    assert_eq!(TestResult::from(test()), TestResult::Success);
}

// An operation that should have failed but succeeded is reported as a result
// that is not an error.
#[test]
fn cgt_assert_err_false() {
    let test = || -> Result<(), TestError> {
        cgt_assert_err(&Ok::<(), TestError>(()))?;
        Ok(())
    };

    assert_eq!(
        TestResult::from(test()),
        TestResult::Failure(TestError::ResultNotError(String::from("Ok(\n    (),\n)")))
    );
}
