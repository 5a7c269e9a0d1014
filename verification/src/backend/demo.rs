//! Demo-mode adapter.
//!
//! `--demo` runs the full UI against fixture data: every outgoing request is
//! swallowed, no events are ever produced, and there is no connection to
//! lose or reconnect.
use vstd::prelude::*;

verus! {

pub struct DemoBackend;

impl DemoBackend {
    /// User-facing engine name for status copy.
    pub fn display_name(&self) -> (r: &'static str)
        ensures
            r@ == "demo"@,
    {
        "demo"
    }

    /// Group admin operations are not gated in demo mode.
    pub fn supports_group_admin(&self) -> (r: bool)
        ensures
            r,
    {
        true
    }

    /// There is no connection to lose, so the reconnect supervisor never
    /// applies.
    pub fn supports_reconnect(&self) -> (r: bool)
        ensures
            !r,
    {
        false
    }
}

} // verus!
