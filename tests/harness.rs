use cgt::render::{decimal_string, signed_decimal_string};
use cgt::{
    cgt_assert_eq, cgt_assert_err, cgt_assert_ok, cgt_test, cgt_test_with_fd, cgt_test_with_path,
    drm_setclientcap, drm_version, ClientCapability, DeviceSearch, DeviceSpecifier, Operand,
    Action, Harness, Registry, RunResult, Step, TapWriter, TestError, TestFunction, TestResult,
    TestRun,
};

fn lines_of(w: &TapWriter) -> Vec<String> {
    w.lines().clone()
}

fn strings(v: &[&str]) -> Vec<String> {
    v.iter().map(|s| s.to_string()).collect()
}

#[test]
fn suites_group_by_module_in_first_registration_order() {
    let mut registry = Registry::new();
    assert_eq!(registry.register(cgt_test("a", "t0")), 0);
    assert_eq!(registry.register(cgt_test("b", "t1")), 1);
    assert_eq!(registry.register(cgt_test("a", "t2")), 2);
    assert_eq!(registry.register(cgt_test("c", "t3")), 3);
    assert_eq!(registry.register(cgt_test("b", "t4")), 4);
    let suites = registry.get_test_suites();
    let names: Vec<&str> = suites.iter().map(|s| s.name.as_str()).collect();
    assert_eq!(names, vec!["a", "b", "c"]);
    assert_eq!(suites[0].members, vec![0, 2]);
    assert_eq!(suites[1].members, vec![1, 4]);
    assert_eq!(suites[2].members, vec![3]);
    assert_eq!(registry.tests().len(), 5);
}

#[test]
fn empty_registry_has_no_suites() {
    assert!(Registry::new().get_test_suites().is_empty());
}

#[test]
fn descriptors_fill_capability_slots_in_order() {
    let t = cgt_test_with_fd(
        "caps",
        "writeback",
        false,
        &[ClientCapability::Atomic, ClientCapability::WritebackConnectors],
    );
    assert_eq!(t.test_fn, TestFunction::WithFd);
    assert!(!t.master);
    assert_eq!(t.client_capabilities[0], Some(ClientCapability::Atomic));
    assert_eq!(t.client_capabilities[1], Some(ClientCapability::WritebackConnectors));
    assert!(t.client_capabilities[2..].iter().all(|c| c.is_none()));

    let all = [ClientCapability::Stereo3d; 8];
    let full = cgt_test_with_fd("caps", "full", true, &all);
    assert!(full.master);
    assert!(full.client_capabilities.iter().all(|c| *c == Some(ClientCapability::Stereo3d)));

    let plain = cgt_test("m", "plain");
    assert_eq!(plain.test_fn, TestFunction::NoArg);
    assert_eq!(plain.module_name, "m");
    assert_eq!(plain.test_name, "plain");
    assert!(plain.client_capabilities.iter().all(|c| c.is_none()));
    assert_eq!(cgt_test_with_path("m", "p").test_fn, TestFunction::WithPath);
}

#[test]
fn with_handle_setup_runs_in_declared_order_before_the_body() {
    let t = cgt_test_with_fd(
        "m",
        "t",
        true,
        &[ClientCapability::UniversalPlanes, ClientCapability::Atomic],
    );
    let (mut run, step) = TestRun::start(&t);
    assert!(matches!(step, Step::OpenDevice));
    assert!(matches!(run.advance(TestResult::Success), Step::ClaimControl));
    assert!(matches!(
        run.advance(TestResult::Success),
        Step::EnableCapability(ClientCapability::UniversalPlanes)
    ));
    assert!(matches!(
        run.advance(TestResult::Success),
        Step::EnableCapability(ClientCapability::Atomic)
    ));
    assert!(matches!(run.advance(TestResult::Success), Step::InvokeBody));
    match run.advance(TestResult::Success) {
        Step::Finish(outcome) => assert_eq!(outcome, TestResult::Success),
        other => panic!("unexpected step {:?}", other),
    }
}

#[test]
fn failed_control_claim_fails_the_test_without_the_body() {
    let t = cgt_test_with_fd("m", "t", true, &[ClientCapability::Atomic]);
    let (mut run, _) = TestRun::start(&t);
    assert!(matches!(run.advance(TestResult::Success), Step::ClaimControl));
    match run.advance(TestResult::Failure(TestError::Io(Some(16)))) {
        Step::Finish(outcome) => {
            assert_eq!(outcome, TestResult::Failure(TestError::Io(Some(16))))
        }
        other => panic!("unexpected step {:?}", other),
    }
}

#[test]
fn failed_capability_fails_the_test_without_the_body() {
    let t = cgt_test_with_fd(
        "m",
        "t",
        false,
        &[ClientCapability::Atomic, ClientCapability::WritebackConnectors],
    );
    let (mut run, _) = TestRun::start(&t);
    assert!(matches!(
        run.advance(TestResult::Success),
        Step::EnableCapability(ClientCapability::Atomic)
    ));
    assert!(matches!(
        run.advance(TestResult::Success),
        Step::EnableCapability(ClientCapability::WritebackConnectors)
    ));
    match run.advance(TestResult::Failure(TestError::Io(Some(22)))) {
        Step::Finish(outcome) => {
            assert_eq!(outcome, TestResult::Failure(TestError::Io(Some(22))))
        }
        other => panic!("unexpected step {:?}", other),
    }
}

#[test]
fn failed_open_fails_the_test() {
    let t = cgt_test_with_fd("m", "t", true, &[]);
    let (mut run, _) = TestRun::start(&t);
    match run.advance(TestResult::Failure(TestError::Io(Some(2)))) {
        Step::Finish(outcome) => assert_eq!(outcome, TestResult::Failure(TestError::Io(Some(2)))),
        other => panic!("unexpected step {:?}", other),
    }
}

#[test]
fn bodies_without_a_handle_run_at_once() {
    let (mut run, step) = TestRun::start(&cgt_test("m", "n"));
    assert!(matches!(step, Step::InvokeBody));
    let failure = TestResult::Failure(TestError::ConditionUnmet(String::from("x")));
    match run.advance(failure.clone()) {
        Step::Finish(outcome) => assert_eq!(outcome, failure),
        other => panic!("unexpected step {:?}", other),
    }
    let (_, step) = TestRun::start(&cgt_test_with_path("m", "p"));
    assert!(matches!(step, Step::InvokeBody));
}

#[test]
fn handle_without_requests_goes_straight_to_the_body() {
    let (mut run, step) = TestRun::start(&cgt_test_with_fd("m", "t", false, &[]));
    assert!(matches!(step, Step::OpenDevice));
    assert!(matches!(run.advance(TestResult::Success), Step::InvokeBody));
}

#[test]
fn a_test_after_an_exclusive_one_starts_from_nothing() {
    let a = cgt_test_with_fd("m", "a", true, &[ClientCapability::Atomic]);
    let b = cgt_test_with_fd("m", "b", false, &[]);
    let (mut run_a, _) = TestRun::start(&a);
    run_a.advance(TestResult::Success);
    run_a.advance(TestResult::Success);
    run_a.advance(TestResult::Success);
    assert!(matches!(run_a.advance(TestResult::Success), Step::Finish(TestResult::Success)));
    let (mut run_b, step) = TestRun::start(&b);
    assert!(matches!(step, Step::OpenDevice));
    assert!(matches!(run_b.advance(TestResult::Success), Step::InvokeBody));
}

#[test]
fn run_verdict_fails_on_any_failure() {
    let ok = TestResult::Success;
    let bad = TestResult::Failure(TestError::Unspecified);
    assert_eq!(RunResult::Success.record(&ok), RunResult::Success);
    assert_eq!(RunResult::Success.record(&bad), RunResult::Failure);
    assert_eq!(RunResult::Failure.record(&ok), RunResult::Failure);
    assert_eq!(RunResult::Success.report(), 0);
    assert_eq!(RunResult::Failure.report(), 1);
    assert_eq!(RunResult::from(Ok::<u8, ()>(1)), RunResult::Success);
    assert_eq!(RunResult::from(Err::<u8, ()>(())), RunResult::Failure);
}

#[test]
fn tap_numbers_each_suite_from_one() {
    let a = cgt_test("suite_a", "first");
    let b = cgt_test("suite_a", "second");
    let c = cgt_test("suite_b", "third");
    let mut w = TapWriter::new();
    w.start_suite("suite_a");
    w.write_result(&a, &TestResult::Success);
    w.write_result(
        &b,
        &TestResult::Failure(TestError::ConditionUnmet(String::from("x > 0"))),
    );
    assert_eq!(w.count(), 2);
    w.end_suite();
    w.start_suite("suite_b");
    w.write_result(&c, &TestResult::Success);
    w.end_suite();
    assert_eq!(
        lines_of(&w),
        strings(&[
            "# suite_a",
            "ok 1 first",
            "not ok 2 second",
            "# Condition x > 0 is not true",
            "1..2",
            "# suite_b",
            "ok 1 third",
            "1..1",
        ])
    );
    assert_eq!(w.end_run(), RunResult::Failure);
}

#[test]
fn tap_empty_suite_has_plan_zero() {
    let mut w = TapWriter::new();
    w.start_suite("nothing");
    w.end_suite();
    assert_eq!(lines_of(&w), strings(&["# nothing", "1..0"]));
    assert_eq!(w.end_run(), RunResult::Success);
}

#[test]
fn tap_report_is_reproducible() {
    let feed = |w: &mut TapWriter| {
        let t = cgt_test("s", "t");
        w.start_suite("s");
        w.write_result(&t, &TestResult::Failure(TestError::Io(Some(13))));
        w.write_result(&t, &TestResult::Success);
        w.end_suite();
    };
    let mut first = TapWriter::new();
    let mut second = TapWriter::new();
    feed(&mut first);
    feed(&mut second);
    assert_eq!(lines_of(&first), lines_of(&second));
    assert_eq!(
        lines_of(&first),
        strings(&["# s", "not ok 1 t", "# I/O Error", "ok 2 t", "1..2"])
    );
}

#[test]
fn explicit_path_resolves_unchanged() {
    let search = DeviceSearch::start(DeviceSpecifier::Path(String::from("/dev/dri/card7")));
    assert!(!search.searching());
    assert_eq!(search.finish(), Ok(String::from("/dev/dri/card7")));
}

#[test]
fn driver_name_resolves_to_first_match() {
    let mut search = DeviceSearch::start(DeviceSpecifier::ModuleName(String::from("vkms")));
    assert!(search.searching());
    search.record(String::from("/dev/dri/card0"), Ok(b"i915".to_vec()));
    assert!(search.searching());
    search.record(String::from("/dev/dri/card1"), Ok(b"vkms".to_vec()));
    assert!(!search.searching());
    assert_eq!(search.finish(), Ok(String::from("/dev/dri/card1")));
}

#[test]
fn unknown_driver_is_no_such_device() {
    let mut search = DeviceSearch::start(DeviceSpecifier::ModuleName(String::from("vkms")));
    search.record(String::from("/dev/dri/card0"), Ok(b"i915".to_vec()));
    search.record(String::from("/dev/dri/card1"), Ok(b"VKMS".to_vec()));
    search.record(String::from("/dev/dri/card2"), Ok(b"vkms2".to_vec()));
    assert!(search.searching());
    assert_eq!(search.finish(), Err(TestError::NoSuchDevice));
    let none = DeviceSearch::start(DeviceSpecifier::ModuleName(String::from("vkms")));
    assert_eq!(none.finish(), Err(TestError::NoSuchDevice));
}

#[test]
fn probe_error_aborts_resolution() {
    let mut search = DeviceSearch::start(DeviceSpecifier::ModuleName(String::from("vkms")));
    search.record(String::from("/dev/dri/card0"), Err(TestError::Io(Some(13))));
    assert!(!search.searching());
    assert_eq!(search.finish(), Err(TestError::Io(Some(13))));
}

#[test]
fn second_exclusive_claim_must_fail() {
    let first: Result<(), TestError> = Ok(());
    let second: Result<(), TestError> = Err(TestError::Io(Some(13)));
    assert_eq!(cgt_assert_ok(&first), Ok(()));
    assert_eq!(cgt_assert_err(&second), Ok(()));
    assert_eq!(
        cgt_assert_err(&first),
        Err(TestError::ResultNotError(String::from("Ok(\n    (),\n)")))
    );
}

#[test]
fn error_descriptions() {
    let cases = [
        (TestError::ConditionUnmet(String::from("a")), "Condition a is not true"),
        (TestError::Io(Some(2)), "I/O Error"),
        (TestError::NotEqual(String::from("2"), String::from("3")), "Values 2 and 3 are not equal"),
        (TestError::ResultNotError(String::from("Ok(())")), "Result Ok(()) isn't an error"),
        (TestError::ResultNotOk(String::from("Err(x)")), "Result Err(x) isn't a value"),
        (TestError::NoSuchDevice, "No such device"),
        (TestError::Unspecified, "Unknown Error"),
    ];
    for (e, text) in cases {
        assert_eq!(e.description(), text);
    }
}

#[test]
fn errors_compare_io_by_code() {
    assert_eq!(TestError::Io(Some(2)), TestError::Io(Some(2)));
    assert_ne!(TestError::Io(Some(2)), TestError::Io(Some(3)));
    assert_ne!(TestError::Io(None), TestError::Io(Some(3)));
    assert_eq!(TestError::Io(None), TestError::Io(None));
    assert_ne!(TestError::Unspecified, TestError::NoSuchDevice);
    assert_ne!(
        TestError::ResultNotOk(String::from("a")),
        TestError::ResultNotError(String::from("a"))
    );
    assert_eq!(
        TestError::NotEqual(String::from("a"), String::from("b")),
        TestError::NotEqual(String::from("a"), String::from("b"))
    );
    assert_ne!(
        TestError::NotEqual(String::from("a"), String::from("b")),
        TestError::NotEqual(String::from("a"), String::from("c"))
    );
}

#[test]
fn errno_becomes_io_error_with_its_code() {
    assert_eq!(TestError::from_errno(nix::errno::Errno::EBUSY), TestError::Io(Some(16)));
    assert_eq!(TestError::from_errno(nix::errno::Errno::ENODEV), TestError::Io(Some(19)));
}

#[test]
fn rendering_matches_pretty_debug() {
    let values = [
        TestError::ConditionUnmet(String::from("a \"quoted\"\n\\ and\ttab\r\0")),
        TestError::Io(Some(-4)),
        TestError::Io(Some(2)),
        TestError::Io(None),
        TestError::NotEqual(String::from("x"), String::from("y")),
        TestError::ResultNotError(String::from("Ok(\n    (),\n)")),
        TestError::ResultNotOk(String::from("é")),
        TestError::ConditionUnmet(String::from("\u{1}\u{1b}\u{7f}\u{85}\u{9f} a")),
        TestError::NoSuchDevice,
        TestError::Unspecified,
    ];
    for v in values {
        assert_eq!(v.render(), format!("{:#?}", v));
        let wrapped: Result<u32, TestError> = Err(v.clone());
        assert_eq!(wrapped.render(), format!("{:#?}", wrapped));
    }
    let ok: Result<bool, TestError> = Ok(false);
    assert_eq!(ok.render(), format!("{:#?}", ok));
    assert_eq!((-2147483648i32).render(), "-2147483648");
    assert_eq!(u64::MAX.render(), "18446744073709551615");
    assert_eq!(7usize.render(), "7");
}

#[test]
fn decimal_notation() {
    assert_eq!(decimal_string(0), "0");
    assert_eq!(decimal_string(1234), "1234");
    assert_eq!(signed_decimal_string(i64::MIN), "-9223372036854775808");
    assert_eq!(signed_decimal_string(-10), "-10");
}

#[test]
fn equality_of_operands() {
    assert_eq!(cgt_assert_eq(&5u64, &5u64), Ok(()));
    assert_eq!(
        cgt_assert_eq(&5u32, &6u32),
        Err(TestError::NotEqual(String::from("5"), String::from("6")))
    );
    assert_eq!(
        cgt_assert_eq(&TestError::Io(Some(1)), &TestError::Io(Some(2))),
        Err(TestError::NotEqual(
            String::from("Io(\n    Some(\n        1,\n    ),\n)"),
            String::from("Io(\n    Some(\n        2,\n    ),\n)")
        ))
    );
}

#[test]
fn capability_requests() {
    let on = drm_setclientcap::toggle(ClientCapability::Atomic, true);
    assert_eq!((on.capability, on.value), (3, 1));
    let off = drm_setclientcap::toggle(ClientCapability::WritebackConnectors, false);
    assert_eq!((off.capability, off.value), (5, 0));
    assert_eq!(ClientCapability::Stereo3d.number(), 1);
    assert_eq!(ClientCapability::AspectRatio.number(), 4);
    assert_eq!(ClientCapability::all().len(), 5);
    assert_eq!(
        ClientCapability::clearable(),
        vec![
            ClientCapability::Stereo3d,
            ClientCapability::UniversalPlanes,
            ClientCapability::Atomic,
            ClientCapability::AspectRatio
        ]
    );
}

#[test]
fn driver_name_query_carries_reported_length() {
    let lengths = drm_version { name_len: 4, date_len: 8, desc_len: 9, ..Default::default() };
    let q = drm_version::name_query(&lengths, 0x1000);
    assert_eq!((q.name_len, q.name), (4, 0x1000));
    assert_eq!((q.date_len, q.date, q.desc_len, q.desc), (0, 0, 0, 0));
}

fn drive(h: &mut Harness, events: &mut Vec<TestResult>) -> Vec<String> {
    let mut log = Vec::new();
    let mut event = TestResult::Success;
    loop {
        let action = h.next(event);
        event = TestResult::Success;
        match action {
            Action::StartSuite(k) => log.push(format!("suite {}", h.suite(k).name)),
            Action::WriteTest(i) => log.push(format!("test {}", h.test(i).test_name)),
            Action::Perform(step) => {
                log.push(format!("{:?}", step));
                if !events.is_empty() {
                    event = events.remove(0);
                }
            }
            Action::WriteResult(i, outcome) => {
                log.push(format!("result {} {:?}", h.test(i).test_name, outcome))
            }
            Action::EndSuite => log.push(String::from("end")),
            Action::Exit(v) => {
                log.push(format!("exit {:?}", v));
                return log;
            }
        }
    }
}

#[test]
fn harness_runs_each_test_once_in_suite_order() {
    let mut registry = Registry::new();
    registry.register(cgt_test("a", "x"));
    registry.register(cgt_test_with_fd("b", "y", true, &[ClientCapability::Atomic]));
    registry.register(cgt_test_with_path("a", "z"));
    let mut h = Harness::new(registry);
    let mut events = vec![
        TestResult::Success,
        TestResult::Success,
        TestResult::Success,
        TestResult::Failure(TestError::Io(Some(16))),
    ];
    let log = drive(&mut h, &mut events);
    assert_eq!(
        log,
        strings(&[
            "suite a",
            "test x",
            "InvokeBody",
            "result x Success",
            "test z",
            "InvokeBody",
            "result z Success",
            "end",
            "suite b",
            "test y",
            "OpenDevice",
            "ClaimControl",
            "result y Failure(Io(Some(16)))",
            "end",
            "exit Failure",
        ])
    );
}

#[test]
fn harness_with_no_tests_exits_at_once() {
    let mut h = Harness::new(Registry::new());
    let log = drive(&mut h, &mut Vec::new());
    assert_eq!(log, strings(&["exit Success"]));
}

#[test]
fn harness_passes_failures_on_and_keeps_running() {
    let mut registry = Registry::new();
    registry.register(cgt_test_with_fd(
        "s",
        "first",
        false,
        &[ClientCapability::UniversalPlanes, ClientCapability::Atomic],
    ));
    registry.register(cgt_test("s", "second"));
    let mut h = Harness::new(registry);
    let failure = TestResult::Failure(TestError::NotEqual(String::from("1"), String::from("2")));
    let mut events = vec![
        TestResult::Success,
        TestResult::Success,
        TestResult::Success,
        failure,
        TestResult::Success,
    ];
    let log = drive(&mut h, &mut events);
    assert_eq!(
        log,
        strings(&[
            "suite s",
            "test first",
            "OpenDevice",
            "EnableCapability(UniversalPlanes)",
            "EnableCapability(Atomic)",
            "InvokeBody",
            "result first Failure(NotEqual(\"1\", \"2\"))",
            "test second",
            "InvokeBody",
            "result second Success",
            "end",
            "exit Failure",
        ])
    );
}
