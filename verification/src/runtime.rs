//! Options of the runtime that runs flows in tests.

use std::time::Duration;
use vstd::prelude::*;

verus! {

/// The duration of `secs` whole seconds.
pub uninterp spec fn duration_of_secs(secs: u64) -> Duration;

/// `Duration::from_secs`: the duration of `secs` whole seconds, a function of `secs` alone.
#[verifier::external_body]
fn duration_from_secs(secs: u64) -> (res: Duration)
    ensures
        res == duration_of_secs(secs),
{
    Duration::from_secs(secs)
}

/// Options for creating an instance of a runtime.
#[derive(Clone, Debug, PartialEq)]
#[non_exhaustive]
pub struct RuntimeOptions {
    /// How long a run may take before it fails; `None` for no limit.
    pub timeout: Option<Duration>,
}

impl Default for RuntimeOptions {
    fn default() -> (res: Self)
        ensures
            res.timeout == Some(duration_of_secs(1)),
    {
        Self { timeout: Some(duration_from_secs(1)) }
    }
}

} // verus!
