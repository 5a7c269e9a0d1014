//! Native device linking.
use vstd::prelude::*;

verus! {

/// What one non-blocking poll of a provisioning session observed.
#[derive(Debug, Clone, Copy, PartialEq, Eq, Structural)]
pub enum NativeLinkPoll {
    /// Handshake still in progress; keep showing the QR.
    Pending,
    /// The device was linked successfully.
    Completed,
}

} // verus!
