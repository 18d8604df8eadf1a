//! Finding the device under test from a path or a driver name.

use vstd::prelude::*;
use vstd::utf8::encode_utf8;

use crate::error::{ErrorView, TestError};

verus! {

/// Which device a run targets.
#[derive(Clone, Debug)]
pub enum DeviceSpecifier {
    /// The first candidate device bound to the driver of this name.
    ModuleName(String),
    /// This device file, taken as it is.
    Path(String),
}

/// The device files that are probed for a driver, in ascending name order.
pub const CANDIDATE_PATTERN: &'static str = "/dev/dri/card*";

/// Where a search for the device stands.
#[derive(Clone, Debug)]
pub enum SearchState {
    Searching,
    Found(String),
    Failed(TestError),
}

/// Whether a driver-identification reply names the driver, byte for byte.
pub open spec fn names_driver(reply: Seq<u8>, driver: Seq<char>) -> bool {
    reply == encode_utf8(driver)
}

/// The resolution of a device specifier against candidate device files.
/// Candidates are offered one at a time, with the reply of the
/// driver-identification query on each or the error that it met. The first
/// candidate that names the driver is the device; the first error ends the
/// search with that error; when the candidates run out, there is no such device.
pub struct DeviceSearch {
    driver: String,
    state: SearchState,
}

fn same_bytes(a: &[u8], b: &[u8]) -> (r: bool)
    ensures
        r == (a@ == b@),
{
    if a.len() != b.len() {
        return false;
    }
    let mut i: usize = 0;
    while i < a.len()
        invariant
            a@.len() == b@.len(),
            i <= a@.len(),
            forall|j: int| 0 <= j < i ==> a@[j] == b@[j],
        decreases a.len() - i,
    {
        if a[i] != b[i] {
            return false;
        }
        i += 1;
    }
    assert(a@ =~= b@);
    true
}

impl DeviceSearch {
    /// The driver that is searched for.
    pub closed spec fn driver(&self) -> Seq<char> {
        self.driver@
    }

    pub closed spec fn state(&self) -> SearchState {
        self.state
    }

    /// Starts resolving `device`: an explicit path is the answer at once; a
    /// driver name starts a search.
    pub fn start(device: DeviceSpecifier) -> (r: DeviceSearch)
        ensures
            device matches DeviceSpecifier::Path(p) ==> r.state() == SearchState::Found(p),
            device matches DeviceSpecifier::ModuleName(m) ==> r.state() == SearchState::Searching
                && r.driver() == m@,
    {
        match device {
            DeviceSpecifier::Path(p) => DeviceSearch { driver: String::new(), state: SearchState::Found(p) },
            DeviceSpecifier::ModuleName(m) => DeviceSearch { driver: m, state: SearchState::Searching },
        }
    }

    /// Whether more candidates are wanted.
    pub fn searching(&self) -> (r: bool)
        ensures
            r == (self.state() is Searching),
    {
        matches!(self.state, SearchState::Searching)
    }

    /// Takes the outcome of probing one candidate: the reply of its
    /// driver-identification query, or the error that opening or querying it met.
    pub fn record(&mut self, candidate: String, probe: Result<Vec<u8>, TestError>)
        requires
            old(self).state() is Searching,
        ensures
            final(self).driver() == old(self).driver(),
            probe matches Err(e) ==> final(self).state() == SearchState::Failed(e),
            probe matches Ok(reply) ==> final(self).state() == if names_driver(
                reply@,
                old(self).driver(),
            ) {
                SearchState::Found(candidate)
            } else {
                SearchState::Searching
            },
    {
        match probe {
            Err(e) => {
                self.state = SearchState::Failed(e);
            },
            Ok(reply) => {
                let wanted = self.driver.as_str().as_bytes();
                if same_bytes(reply.as_slice(), wanted) {
                    self.state = SearchState::Found(candidate);
                }
            },
        }
    }

    /// The device path, or why there is none.
    pub fn finish(self) -> (r: Result<String, TestError>)
        ensures
            self.state() matches SearchState::Found(p) ==> r == Ok::<String, TestError>(p),
            self.state() matches SearchState::Failed(e) ==> r == Err::<String, TestError>(e),
            self.state() is Searching ==> (r matches Err(e) && e@ == ErrorView::NoSuchDevice),
    {
        match self.state {
            SearchState::Found(p) => Ok(p),
            SearchState::Failed(e) => Err(e),
            SearchState::Searching => Err(TestError::NoSuchDevice),
        }
    }
}

} // verus!
