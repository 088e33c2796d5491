//! The SRWP protocol engine: the transaction executor that performs one
//! bounded frame exchange with the full control-line sequence, and the
//! chunked, paced engine behind the public addressed read/write operations.

use vstd::prelude::*;
use crate::chunks::{
    chunk_count, read_frames, spec_min, write_frames, MAX_BYTES_PER_TRANSACTION,
};
use crate::codec::{encode_read_frame, encode_test_frame, encode_write_frame, read_frame,
    test_frame, write_frame};
use crate::error::DeviceError;
use crate::transport::{Clock, LineEvent, Transport};

verus! {

/// Default throughput budget of the device link, in bytes per second.
pub const MAX_BYTES_PER_SECOND: usize = 9600 / 8;

/// How many consecutive zero-length reads a Read transaction tolerates before
/// it fails with [`DeviceError::TimedOut`].
pub const MAX_ZERO_READ_COUNT: u32 = 10;

/// The control-line transitions that bracket one transaction: both lines are
/// raised before the frame goes out — data-terminal-ready first — and
/// lowered after the flush in reverse order.
pub open spec fn control_bracket() -> Seq<LineEvent> {
    seq![
        LineEvent::DataTerminalReady(true),
        LineEvent::RequestToSend(true),
        LineEvent::RequestToSend(false),
        LineEvent::DataTerminalReady(false),
    ]
}

/// The control-line transitions of `n` consecutive transactions.
pub open spec fn control_brackets(n: int) -> Seq<LineEvent>
    decreases n,
{
    if n <= 0 {
        Seq::empty()
    } else {
        control_bracket() + control_brackets(n - 1)
    }
}

/// One more transaction appends one more bracket.
proof fn lemma_control_brackets_snoc(n: int)
    requires
        0 <= n,
    ensures
        control_brackets(n + 1) == control_brackets(n) + control_bracket(),
    decreases n,
{
    if n == 0 {
        assert(control_brackets(1) =~= control_brackets(0) + control_bracket());
    } else {
        lemma_control_brackets_snoc(n - 1);
        assert(control_brackets(n + 1) =~= control_brackets(n) + control_bracket());
    }
}

/// A session owning exclusive access to one transport for the lifetime of all
/// operations, together with the clock that paces its transactions.
pub struct SerialPortDataManager<T: Transport, C: Clock> {
    /// The half-duplex byte transport the device is reached over.
    pub port: T,
    /// The clock used to hold every transaction to the minimum duration.
    pub clock: C,
    /// Minimum duration of one transaction in milliseconds, derived from the
    /// throughput budget: `floor(1000 * 32 / bytes_per_second)`.
    pub min_gap_ms: u64,
}

/// Addressed byte-range I/O against a device with a flat 32-bit address
/// space, hiding the bounded transaction size and the throughput pacing.
///
/// The contracts speak through abstract observations of the session: the
/// frames handed to its transport, the response bytes its transport has
/// delivered, the control-line transitions it has driven, its clock's
/// reading, and its pacing gap.
pub trait AddressedIo: Sized {
    /// The frames the session has handed to its transport, oldest first.
    open spec fn frames_sent(&self) -> Seq<Seq<u8>> {
        Seq::empty()
    }

    /// The response bytes the session's transport has delivered, oldest first.
    open spec fn bytes_received(&self) -> Seq<u8> {
        Seq::empty()
    }

    /// The control-line transitions the session's transport has driven,
    /// oldest first.
    open spec fn line_events(&self) -> Seq<LineEvent> {
        Seq::empty()
    }

    /// The session clock's reading, in milliseconds.
    open spec fn now_ms(&self) -> nat {
        0
    }

    /// The minimum duration of one transaction, in milliseconds.
    open spec fn pace_ms(&self) -> nat {
        0
    }

    /// Reads `length` bytes starting at `address`, as consecutive bounded
    /// transactions in increasing address order.
    ///
    /// On success the result has exactly `length` bytes, the transport was
    /// handed exactly the Read frames of the chunk plan, in order, each
    /// bracketed by the control-line sequence, and the result is byte-exact
    /// the concatenation, in issue order, of what the transactions returned.
    /// Each transaction is held to the pacing gap, so
    /// the clock advances by at least `ceil(length / 32)` times the gap. A
    /// zero-length read succeeds immediately, issuing nothing.
    fn read_data(&mut self, address: u32, length: usize) -> (r: Result<Vec<u8>, DeviceError>)
        requires
            address as int + length as int <= 0x1_0000_0000,
        ensures
            final(self).pace_ms() == old(self).pace_ms(),
            final(self).now_ms() >= old(self).now_ms(),
            r is Ok ==> r.unwrap()@.len() == length,
            r is Ok ==> final(self).frames_sent() == old(self).frames_sent() + read_frames(
                address as int,
                length as int,
            ),
            r is Ok ==> final(self).bytes_received() == old(self).bytes_received()
                + r.unwrap()@,
            r is Ok ==> final(self).line_events() == old(self).line_events() + control_brackets(
                chunk_count(length as int),
            ),
            r is Ok ==> final(self).now_ms() >= old(self).now_ms() + chunk_count(length as int)
                * old(self).pace_ms(),
            length == 0 ==> r is Ok && *final(self) == *old(self),
    ;

    /// Writes `data` starting at `address`, as consecutive bounded
    /// transactions in increasing address order.
    ///
    /// On success the transport was handed exactly the Write frames of the
    /// chunk plan, in order, each carrying its slice of `data` and each
    /// bracketed by the control-line sequence. Each
    /// transaction is held to the pacing gap, so the clock advances by at
    /// least `ceil(data.len() / 32)` times the gap. Writes read nothing back;
    /// a failure is the transport's own and chunks already sent are not
    /// rolled back. A zero-length write succeeds immediately, issuing
    /// nothing.
    fn write_data(&mut self, address: u32, data: &[u8]) -> (r: Result<(), DeviceError>)
        requires
            address as int + data@.len() <= 0x1_0000_0000,
        ensures
            final(self).pace_ms() == old(self).pace_ms(),
            final(self).now_ms() >= old(self).now_ms(),
            final(self).bytes_received() == old(self).bytes_received(),
            r is Ok ==> final(self).frames_sent() == old(self).frames_sent() + write_frames(
                address as int,
                data@,
            ),
            r is Ok ==> final(self).line_events() == old(self).line_events() + control_brackets(
                chunk_count(data@.len() as int),
            ),
            r is Ok ==> final(self).now_ms() >= old(self).now_ms() + chunk_count(
                data@.len() as int,
            ) * old(self).pace_ms(),
            r is Err ==> r.unwrap_err() == DeviceError::TransportError,
            data@.len() == 0 ==> r is Ok && *final(self) == *old(self),
    ;
}

/// A vector of `n` zero bytes.
fn zero_vec(n: usize) -> (v: Vec<u8>)
    ensures
        v@.len() == n,
        forall|i: int| 0 <= i < n ==> v@[i] == 0,
{
    let mut v: Vec<u8> = Vec::new();
    let mut i: usize = 0;
    while i < n
        invariant
            i <= n,
            v@.len() == i,
            forall|j: int| 0 <= j < i ==> v@[j] == 0,
        decreases n - i,
    {
        v.push(0u8);
        i = i + 1;
    }
    v
}

impl<T: Transport, C: Clock> SerialPortDataManager<T, C> {
    /// A session over `port`, paced by `clock` to the default throughput
    /// budget of [`MAX_BYTES_PER_SECOND`].
    pub fn new(port: T, clock: C) -> (r: Self)
        ensures
            r.port == port,
            r.clock == clock,
            r.min_gap_ms == 1000 * (MAX_BYTES_PER_TRANSACTION as int) / (
            MAX_BYTES_PER_SECOND as int),
    {
        let gap: u64 = (1000 * MAX_BYTES_PER_TRANSACTION as u64) / (MAX_BYTES_PER_SECOND as u64);
        SerialPortDataManager { port, clock, min_gap_ms: gap }
    }

    /// A session over `port`, paced by `clock` to a throughput budget of
    /// `bytes_per_second`: every transaction is held to a minimum duration of
    /// `floor(1000 * 32 / bytes_per_second)` milliseconds.
    pub fn with_throughput(port: T, clock: C, bytes_per_second: u64) -> (r: Self)
        requires
            bytes_per_second >= 1,
        ensures
            r.port == port,
            r.clock == clock,
            r.min_gap_ms == 1000 * (MAX_BYTES_PER_TRANSACTION as int) / (
            bytes_per_second as int),
    {
        let gap: u64 = (1000 * MAX_BYTES_PER_TRANSACTION as u64) / bytes_per_second;
        SerialPortDataManager { port, clock, min_gap_ms: gap }
    }

    /// Standalone connectivity diagnostic: sends a Test frame carrying `data`
    /// and reads back up to `data.len()` bytes with a single read — no retry
    /// loop, unlike a Read transaction.
    ///
    /// On success the result has exactly `data.len()` bytes: first whatever
    /// the single read delivered, then untouched zero padding.
    pub fn test(&mut self, data: &[u8]) -> (r: Result<Vec<u8>, DeviceError>)
        requires
            data@.len() <= u32::MAX,
        ensures
            final(self).clock == old(self).clock,
            final(self).min_gap_ms == old(self).min_gap_ms,
            r is Ok ==> r.unwrap()@.len() == data@.len(),
            r is Ok ==> final(self).port.sent() == old(self).port.sent().push(test_frame(data@)),
            r is Ok ==> final(self).port.lines() == old(self).port.lines() + control_bracket(),
            r is Ok ==> ({
                let k = final(self).port.received().len() - old(self).port.received().len();
                &&& 0 <= k <= data@.len()
                &&& final(self).port.received() == old(self).port.received()
                    + r.unwrap()@.subrange(0, k)
                &&& forall|i: int| k <= i < data@.len() ==> r.unwrap()@[i] == 0
            }),
    {
        match self.port.clear() {
            Ok(()) => (),
            Err(e) => return Err(e),
        }
        let frame = encode_test_frame(data);
        match self.port.set_data_terminal_ready(true) {
            Ok(()) => (),
            Err(e) => return Err(e),
        }
        match self.port.set_request_to_send(true) {
            Ok(()) => (),
            Err(e) => return Err(e),
        }
        match self.port.write(&frame) {
            Ok(_) => (),
            Err(e) => return Err(e),
        }
        match self.port.flush() {
            Ok(()) => (),
            Err(e) => return Err(e),
        }
        match self.port.set_request_to_send(false) {
            Ok(()) => (),
            Err(e) => return Err(e),
        }
        match self.port.set_data_terminal_ready(false) {
            Ok(()) => (),
            Err(e) => return Err(e),
        }
        proof {
            assert(self.port.lines() =~= old(self).port.lines() + control_bracket());
        }
        let mut buf = zero_vec(data.len());
        match self.port.read_into(&mut buf, 0) {
            Ok(n) => {
                proof {
                    assert(buf@.subrange(0, n as int) == buf@.subrange(0 as int, 0 + n as int));
                    assert(self.port.received() == old(self).port.received() + buf@.subrange(
                        0,
                        n as int,
                    ));
                    assert(forall|i: int| n as int <= i < data@.len() ==> buf@[i] == 0);
                    assert(self.port.received().len() == old(self).port.received().len()
                        + n as int);
                }
                Ok(buf)
            },
            Err(e) => Err(e),
        }
    }

    /// Executes one bounded Read transaction: clears the transport, raises
    /// data-terminal-ready then request-to-send, sends the Read frame,
    /// flushes, lowers the lines in reverse order, waits on data-set-ready,
    /// then accumulates response bytes until `length` are in hand. Every
    /// zero-length read increments a counter that any delivery resets; once
    /// the counter passes [`MAX_ZERO_READ_COUNT`] the transaction fails with
    /// [`DeviceError::TimedOut`].
    fn _read_data(&mut self, address: u32, length: usize) -> (r: Result<Vec<u8>, DeviceError>)
        requires
            length <= MAX_BYTES_PER_TRANSACTION,
        ensures
            final(self).clock == old(self).clock,
            final(self).min_gap_ms == old(self).min_gap_ms,
            r is Ok ==> r.unwrap()@.len() == length,
            r is Ok ==> final(self).port.sent() == old(self).port.sent().push(
                read_frame(address, length as u32),
            ),
            r is Ok ==> final(self).port.lines() == old(self).port.lines() + control_bracket(),
            r is Ok ==> final(self).port.received() == old(self).port.received() + r.unwrap()@,
    {
        match self.port.clear() {
            Ok(()) => (),
            Err(e) => return Err(e),
        }
        let frame = encode_read_frame(address, length as u32);
        match self.port.set_data_terminal_ready(true) {
            Ok(()) => (),
            Err(e) => return Err(e),
        }
        match self.port.set_request_to_send(true) {
            Ok(()) => (),
            Err(e) => return Err(e),
        }
        match self.port.write(&frame) {
            Ok(_) => (),
            Err(e) => return Err(e),
        }
        match self.port.flush() {
            Ok(()) => (),
            Err(e) => return Err(e),
        }
        match self.port.set_request_to_send(false) {
            Ok(()) => (),
            Err(e) => return Err(e),
        }
        match self.port.set_data_terminal_ready(false) {
            Ok(()) => (),
            Err(e) => return Err(e),
        }
        match self.port.wait_data_set_ready() {
            Ok(()) => (),
            Err(e) => return Err(e),
        }

        proof {
            assert(self.port.lines() =~= old(self).port.lines() + control_bracket());
        }
        let mut zero_read_count: u32 = 0;
        let mut count: usize = 0;
        let mut data = zero_vec(length);
        while count < length
            invariant
                count <= length,
                data@.len() == length,
                zero_read_count <= MAX_ZERO_READ_COUNT,
                self.clock == old(self).clock,
                self.min_gap_ms == old(self).min_gap_ms,
                self.port.sent() == old(self).port.sent().push(read_frame(address, length as u32)),
                self.port.lines() == old(self).port.lines() + control_bracket(),
                self.port.received() == old(self).port.received() + data@.subrange(0, count as int),
            decreases length - count, MAX_ZERO_READ_COUNT - zero_read_count,
        {
            let size = match self.port.read_into(&mut data, count) {
                Ok(n) => n,
                Err(e) => return Err(e),
            };
            proof {
                assert(old(self).port.received() + data@.subrange(0, count as int) + data@.subrange(
                    count as int,
                    count + size,
                ) =~= old(self).port.received() + data@.subrange(0, count + size));
            }
            count = count + size;
            if size == 0 {
                zero_read_count = zero_read_count + 1;
                if zero_read_count > MAX_ZERO_READ_COUNT {
                    return Err(DeviceError::TimedOut);
                }
            } else {
                zero_read_count = 0;
            }
        }
        proof {
            assert(data@.subrange(0, length as int) =~= data@);
        }
        Ok(data)
    }

    /// Executes one bounded Write transaction: clears the transport, raises
    /// data-terminal-ready then request-to-send, sends the Write frame
    /// carrying `data`, flushes, then lowers the lines in reverse order. No
    /// response is expected.
    fn _write_data(&mut self, address: u32, data: &[u8]) -> (r: Result<(), DeviceError>)
        requires
            data@.len() <= MAX_BYTES_PER_TRANSACTION,
        ensures
            final(self).clock == old(self).clock,
            final(self).min_gap_ms == old(self).min_gap_ms,
            final(self).port.received() == old(self).port.received(),
            r is Ok ==> final(self).port.sent() == old(self).port.sent().push(
                write_frame(address, data@),
            ),
            r is Ok ==> final(self).port.lines() == old(self).port.lines() + control_bracket(),
            r is Err ==> r.unwrap_err() == DeviceError::TransportError,
    {
        match self.port.clear() {
            Ok(()) => (),
            Err(e) => return Err(e),
        }
        let frame = encode_write_frame(address, data);
        match self.port.set_data_terminal_ready(true) {
            Ok(()) => (),
            Err(e) => return Err(e),
        }
        match self.port.set_request_to_send(true) {
            Ok(()) => (),
            Err(e) => return Err(e),
        }
        match self.port.write(&frame) {
            Ok(_) => (),
            Err(e) => return Err(e),
        }
        match self.port.flush() {
            Ok(()) => (),
            Err(e) => return Err(e),
        }
        match self.port.set_request_to_send(false) {
            Ok(()) => (),
            Err(e) => return Err(e),
        }
        match self.port.set_data_terminal_ready(false) {
            Ok(()) => (),
            Err(e) => return Err(e),
        }
        proof {
            assert(self.port.lines() =~= old(self).port.lines() + control_bracket());
        }
        Ok(())
    }
}

impl<T: Transport, C: Clock> AddressedIo for SerialPortDataManager<T, C> {
    open spec fn frames_sent(&self) -> Seq<Seq<u8>> {
        self.port.sent()
    }

    open spec fn bytes_received(&self) -> Seq<u8> {
        self.port.received()
    }

    open spec fn line_events(&self) -> Seq<LineEvent> {
        self.port.lines()
    }

    open spec fn now_ms(&self) -> nat {
        self.clock.now_spec()
    }

    open spec fn pace_ms(&self) -> nat {
        self.min_gap_ms as nat
    }

    fn read_data(&mut self, address: u32, length: usize) -> (r: Result<Vec<u8>, DeviceError>) {
        if length == 0 {
            proof {
                assert(old(self).port.sent() + read_frames(address as int, 0) =~= old(
                    self,
                ).port.sent());
                assert(old(self).port.received() + Seq::<u8>::empty() =~= old(
                    self,
                ).port.received());
                assert(chunk_count(0) == 0);
                assert(old(self).port.lines() + control_brackets(0) =~= old(self).port.lines());
            }
            return Ok(Vec::new());
        }
        let mut data: Vec<u8> = Vec::new();
        let mut count: usize = 0;
        let ghost mut issued: Seq<Seq<u8>> = Seq::empty();
        proof {
            assert(old(self).port.sent() + issued =~= old(self).port.sent());
            assert(old(self).port.received() + Seq::<u8>::empty() =~= old(self).port.received());
            assert(issued + read_frames(address as int, length as int) =~= read_frames(
                address as int,
                length as int,
            ));
            assert(old(self).port.lines() + control_brackets(0) =~= old(self).port.lines());
        }
        while count < length
            invariant
                count <= length,
                address as int + length as int <= 0x1_0000_0000,
                data@.len() == count,
                self.min_gap_ms == old(self).min_gap_ms,
                self.port.sent() == old(self).port.sent() + issued,
                read_frames(address as int, length as int) == issued + read_frames(
                    address as int + count,
                    length as int - count,
                ),
                self.port.received() == old(self).port.received() + data@,
                self.port.lines() == old(self).port.lines() + control_brackets(
                    issued.len() as int,
                ),
                self.clock.now_spec() >= old(self).clock.now_spec() + issued.len()
                    * self.min_gap_ms,
            decreases length - count,
        {
            let start: u64 = self.clock.now_millis();
            let remaining = length - count;
            let size = if remaining < MAX_BYTES_PER_TRANSACTION {
                remaining
            } else {
                MAX_BYTES_PER_TRANSACTION
            };
            let cur = address + count as u32;
            let ghost issued_before = issued;
            let mut chunk = match self._read_data(cur, size) {
                Ok(c) => c,
                Err(e) => return Err(e),
            };
            proof {
                issued = issued.push(read_frame(cur, size as u32));
                assert(size as int == spec_min(length as int - count, MAX_BYTES_PER_TRANSACTION as int));
                assert(read_frames(address as int + count, length as int - count) =~= seq![
                    read_frame(cur, size as u32),
                ] + read_frames(address as int + count + size, length as int - count - size));
                assert(issued_before.push(read_frame(cur, size as u32)) =~= issued_before + seq![
                    read_frame(cur, size as u32),
                ]);
                assert(issued_before + (seq![read_frame(cur, size as u32)] + read_frames(
                    address as int + count + size,
                    length as int - count - size,
                )) =~= (issued_before + seq![read_frame(cur, size as u32)]) + read_frames(
                    address as int + count + size,
                    length as int - count - size,
                ));
                assert(old(self).port.sent() + issued_before + seq![read_frame(cur, size as u32)]
                    =~= old(self).port.sent() + issued);
                assert(old(self).port.received() + data@ + chunk@ =~= old(self).port.received() + (
                data@ + chunk@));
                lemma_control_brackets_snoc(issued_before.len() as int);
                assert(old(self).port.lines() + control_brackets(issued_before.len() as int)
                    + control_bracket() =~= old(self).port.lines() + control_brackets(
                    issued.len() as int,
                ));
            }
            data.append(&mut chunk);
            count = count + size;
            let stop: u64 = self.clock.now_millis();
            let elapsed: u64 = stop - start;
            if elapsed < self.min_gap_ms {
                let gap = self.min_gap_ms;
                self.clock.sleep_millis(gap - elapsed);
            }
            proof {
                assert(self.clock.now_spec() >= start + self.min_gap_ms);
                assert(issued_before.len() as int * self.min_gap_ms + self.min_gap_ms == (
                issued_before.len() as int + 1) * self.min_gap_ms) by (nonlinear_arith);
            }
        }
        proof {
            assert(issued + read_frames(address as int + length, 0) =~= issued);
            crate::chunks::lemma_read_frames_len(address as int, length as int);
        }
        Ok(data)
    }

    fn write_data(&mut self, address: u32, data: &[u8]) -> (r: Result<(), DeviceError>) {
        if data.len() == 0 {
            proof {
                assert(old(self).port.sent() + write_frames(address as int, data@) =~= old(
                    self,
                ).port.sent());
                assert(chunk_count(0) == 0);
                assert(old(self).port.lines() + control_brackets(0) =~= old(self).port.lines());
            }
            return Ok(());
        }
        let length = data.len();
        let mut count: usize = 0;
        let ghost mut issued: Seq<Seq<u8>> = Seq::empty();
        proof {
            assert(old(self).port.sent() + issued =~= old(self).port.sent());
            assert(data@.subrange(0, length as int) =~= data@);
            assert(issued + write_frames(address as int, data@.subrange(0, length as int)) =~=
                write_frames(address as int, data@));
            assert(old(self).port.lines() + control_brackets(0) =~= old(self).port.lines());
        }
        while count < length
            invariant
                count <= length,
                length == data@.len(),
                address as int + length as int <= 0x1_0000_0000,
                self.min_gap_ms == old(self).min_gap_ms,
                self.port.sent() == old(self).port.sent() + issued,
                write_frames(address as int, data@) == issued + write_frames(
                    address as int + count,
                    data@.subrange(count as int, length as int),
                ),
                self.port.received() == old(self).port.received(),
                self.port.lines() == old(self).port.lines() + control_brackets(
                    issued.len() as int,
                ),
                self.clock.now_spec() >= old(self).clock.now_spec() + issued.len()
                    * self.min_gap_ms,
            decreases length - count,
        {
            let start: u64 = self.clock.now_millis();
            let remaining = length - count;
            let size = if remaining < MAX_BYTES_PER_TRANSACTION {
                remaining
            } else {
                MAX_BYTES_PER_TRANSACTION
            };
            let cur = address + count as u32;
            let chunk = vstd::slice::slice_subrange(data, count, count + size);
            let ghost issued_before = issued;
            match self._write_data(cur, chunk) {
                Ok(()) => (),
                Err(e) => return Err(e),
            }
            proof {
                issued = issued.push(write_frame(cur, chunk@));
                let rest = data@.subrange(count as int, length as int);
                assert(size as int == spec_min(rest.len() as int, MAX_BYTES_PER_TRANSACTION as int));
                assert(rest.subrange(0, size as int) =~= data@.subrange(
                    count as int,
                    count + size,
                ));
                assert(rest.subrange(size as int, rest.len() as int) =~= data@.subrange(
                    count + size,
                    length as int,
                ));
                assert(write_frames(address as int + count, rest) =~= seq![
                    write_frame(cur, chunk@),
                ] + write_frames(address as int + count + size, data@.subrange(
                    count + size,
                    length as int,
                )));
                assert(issued_before.push(write_frame(cur, chunk@)) =~= issued_before + seq![
                    write_frame(cur, chunk@),
                ]);
                assert(issued_before + (seq![write_frame(cur, chunk@)] + write_frames(
                    address as int + count + size,
                    data@.subrange(count + size, length as int),
                )) =~= (issued_before + seq![write_frame(cur, chunk@)]) + write_frames(
                    address as int + count + size,
                    data@.subrange(count + size, length as int),
                ));
                assert(old(self).port.sent() + issued_before + seq![write_frame(cur, chunk@)] =~=
                    old(self).port.sent() + issued);
                lemma_control_brackets_snoc(issued_before.len() as int);
                assert(old(self).port.lines() + control_brackets(issued_before.len() as int)
                    + control_bracket() =~= old(self).port.lines() + control_brackets(
                    issued.len() as int,
                ));
            }
            count = count + size;
            let stop: u64 = self.clock.now_millis();
            let elapsed: u64 = stop - start;
            if elapsed < self.min_gap_ms {
                let gap = self.min_gap_ms;
                self.clock.sleep_millis(gap - elapsed);
            }
            proof {
                assert(self.clock.now_spec() >= start + self.min_gap_ms);
                assert(issued_before.len() as int * self.min_gap_ms + self.min_gap_ms == (
                issued_before.len() as int + 1) * self.min_gap_ms) by (nonlinear_arith);
            }
        }
        proof {
            assert(data@.subrange(length as int, length as int) =~= Seq::<u8>::empty());
            assert(issued + write_frames(address as int + length, data@.subrange(
                length as int,
                length as int,
            )) =~= issued);
            crate::chunks::lemma_write_frames_len(address as int, data@);
        }
        Ok(())
    }
}

} // verus!
