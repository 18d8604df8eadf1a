//! A conformance-test harness for kernel mode-setting devices: test
//! descriptors and their grouping into suites, the per-test setup of a device
//! handle, the verdict of a run, the TAP report, the resolution of the device
//! under test and the failure vocabulary of test bodies.

pub mod assertion;
pub mod engine;
pub mod error;
pub mod registry;
pub mod render;
pub mod report;
pub mod resolve;
pub mod uapi;

pub use assertion::{cgt_assert, cgt_assert_eq, cgt_assert_err, cgt_assert_ok};
pub use engine::{Phase, RunResult, Step, TestRun};
pub use harness::{Action, Harness, Stage};
pub use error::{ErrorView, TestError, TestResult};
pub use registry::{
    cgt_test, cgt_test_with_fd, cgt_test_with_path, Registry, Suite, Test, TestFunction,
    MAX_CAPABILITIES,
};
pub use render::Operand;
pub use report::{TapWriter, TestResultWriter};
pub use resolve::{DeviceSearch, DeviceSpecifier, SearchState, CANDIDATE_PATTERN};
pub use uapi::{
    drm_getcap, drm_mode_get_plane, drm_mode_get_plane_res, drm_setclientcap, drm_version,
    ClientCapability,
};
pub mod harness;
