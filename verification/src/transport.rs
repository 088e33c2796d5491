//! Capability interfaces consumed by the protocol engine.
//!
//! The engine is written against two abstract collaborators, supplied by the
//! caller: a half-duplex byte [`Transport`] with two output control lines and
//! one input status line, and a millisecond [`Clock`] used for throughput
//! pacing. An implementation's obligations are the contracts on the methods,
//! stated over the histories `sent`, `received` and `lines` (for the
//! transport) and the reading `now_spec` (for the clock).

use vstd::prelude::*;
use crate::error::DeviceError;

verus! {

/// One transition of an output control line.
#[derive(Clone, Copy, Debug, PartialEq, Eq, Structural)]
pub enum LineEvent {
    /// The data-terminal-ready line was driven to the carried level.
    DataTerminalReady(bool),
    /// The request-to-send line was driven to the carried level.
    RequestToSend(bool),
}

/// A byte-oriented, half-duplex I/O endpoint.
///
/// An implementation keeps three abstract histories: `sent`, the frames
/// handed over for transmission, oldest first; `received`, every response
/// byte delivered to the host, oldest first; and `lines`, every transition
/// driven onto the two output control lines, oldest first. Each method's
/// contract says how the call moves the histories; any transport failure is
/// reported as an `Err`, never by panicking.
pub trait Transport {
    /// The frames handed over for transmission so far, oldest first.
    /// Implementations that model nothing finer inherit an empty history.
    open spec fn sent(&self) -> Seq<Seq<u8>> {
        Seq::empty()
    }

    /// The response bytes delivered to the host so far, oldest first.
    /// Implementations that model nothing finer inherit an empty history.
    open spec fn received(&self) -> Seq<u8> {
        Seq::empty()
    }

    /// The control-line transitions driven so far, oldest first.
    /// Implementations that model nothing finer inherit an empty history.
    open spec fn lines(&self) -> Seq<LineEvent> {
        Seq::empty()
    }

    /// Discards whatever sits in the input and output buffers. Nothing is
    /// delivered to the host by a clear, so every history is unchanged.
    fn clear(&mut self) -> (r: Result<(), DeviceError>)
        ensures
            final(self).sent() == old(self).sent(),
            final(self).received() == old(self).received(),
            final(self).lines() == old(self).lines(),
            r is Err ==> r.unwrap_err() == DeviceError::TransportError,
    ;

    /// Hands `frame` over for transmission, returning how many bytes the
    /// transport accepted immediately.
    fn write(&mut self, frame: &Vec<u8>) -> (r: Result<usize, DeviceError>)
        ensures
            r is Ok ==> final(self).sent() == old(self).sent().push(frame@),
            r is Err ==> final(self).sent() == old(self).sent(),
            final(self).received() == old(self).received(),
            final(self).lines() == old(self).lines(),
            r is Err ==> r.unwrap_err() == DeviceError::TransportError,
    ;

    /// Blocks until every byte handed over so far is fully transmitted.
    fn flush(&mut self) -> (r: Result<(), DeviceError>)
        ensures
            final(self).sent() == old(self).sent(),
            final(self).received() == old(self).received(),
            final(self).lines() == old(self).lines(),
            r is Err ==> r.unwrap_err() == DeviceError::TransportError,
    ;

    /// Reads whatever response bytes are available right now into
    /// `buf[offset..]`, without blocking for more, and returns how many were
    /// delivered; 0 means none were available. The delivered bytes, and only
    /// they, extend the `received` history; the rest of `buf` is untouched.
    fn read_into(&mut self, buf: &mut Vec<u8>, offset: usize) -> (r: Result<usize, DeviceError>)
        requires
            offset <= old(buf)@.len(),
        ensures
            final(buf)@.len() == old(buf)@.len(),
            final(self).sent() == old(self).sent(),
            r is Ok ==> offset + r.unwrap() <= final(buf)@.len(),
            r is Ok ==> forall|i: int| 0 <= i < offset ==> final(buf)@[i] == old(buf)@[i],
            r is Ok ==> forall|i: int|
                offset + r.unwrap() <= i < final(buf)@.len() ==> final(buf)@[i] == old(buf)@[i],
            r is Ok ==> final(self).received() == old(self).received() + final(buf)@.subrange(
                offset as int,
                offset + r.unwrap(),
            ),
            r is Err ==> final(self).received() == old(self).received() && final(buf)@ == old(
                buf,
            )@,
            final(self).lines() == old(self).lines(),
            r is Err ==> r.unwrap_err() == DeviceError::TransportError,
    ;

    /// Drives the data-terminal-ready output control line to `level`.
    fn set_data_terminal_ready(&mut self, level: bool) -> (r: Result<(), DeviceError>)
        ensures
            final(self).sent() == old(self).sent(),
            final(self).received() == old(self).received(),
            r is Ok ==> final(self).lines() == old(self).lines().push(
                LineEvent::DataTerminalReady(level),
            ),
            r is Err ==> final(self).lines() == old(self).lines(),
            r is Err ==> r.unwrap_err() == DeviceError::TransportError,
    ;

    /// Drives the request-to-send output control line to `level`.
    fn set_request_to_send(&mut self, level: bool) -> (r: Result<(), DeviceError>)
        ensures
            final(self).sent() == old(self).sent(),
            final(self).received() == old(self).received(),
            r is Ok ==> final(self).lines() == old(self).lines().push(
                LineEvent::RequestToSend(level),
            ),
            r is Err ==> final(self).lines() == old(self).lines(),
            r is Err ==> r.unwrap_err() == DeviceError::TransportError,
    ;

    /// Waits on the data-set-ready input status line.
    fn wait_data_set_ready(&mut self) -> (r: Result<(), DeviceError>)
        ensures
            final(self).sent() == old(self).sent(),
            final(self).received() == old(self).received(),
            final(self).lines() == old(self).lines(),
            r is Err ==> r.unwrap_err() == DeviceError::TransportError,
    ;
}

/// A monotonic millisecond clock that can also block the calling thread.
pub trait Clock {
    /// The clock's current reading, in milliseconds. Implementations that
    /// model nothing finer inherit a reading of zero.
    open spec fn now_spec(&self) -> nat {
        0
    }

    /// Returns the current reading. Time never runs backwards: the reading is
    /// at least whatever the clock showed before the call.
    fn now_millis(&mut self) -> (t: u64)
        ensures
            final(self).now_spec() == t as nat,
            t as nat >= old(self).now_spec(),
    ;

    /// Blocks the calling thread for at least `duration` milliseconds.
    fn sleep_millis(&mut self, duration: u64)
        ensures
            final(self).now_spec() >= old(self).now_spec() + duration,
    ;
}

} // verus!
