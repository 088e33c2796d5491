use vstd::prelude::*;

verus! {

/// The two terminal failures of an SRWP operation.
///
/// Both abort the transaction in progress and propagate immediately to the
/// caller of the multi-chunk operation; nothing is retried and chunks already
/// applied on the device are not rolled back.
#[derive(Clone, Copy, Debug, PartialEq, Eq, Structural)]
pub enum DeviceError {
    /// The underlying transport failed (device disconnected, a read or write
    /// syscall failed).
    TransportError,
    /// A Read transaction saw more than the tolerated number of consecutive
    /// zero-length reads before its requested length was satisfied.
    TimedOut,
}

} // verus!
