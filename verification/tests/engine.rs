use srwp::codec::{encode_read_frame, encode_write_frame};
use srwp::error::DeviceError;
use srwp::srwp::{AddressedIo, SerialPortDataManager};
use srwp::transport::{Clock, Transport};

/// A clock whose time advances only when the engine sleeps.
struct FakeClock {
    now: u64,
}

impl Clock for FakeClock {
    fn now_millis(&mut self) -> u64 {
        self.now
    }

    fn sleep_millis(&mut self, duration: u64) {
        self.now += duration;
    }
}

/// A device with a flat byte memory that answers every Read frame instantly
/// and in full, and echoes the payload of every Test frame.
struct EchoTransport {
    mem: Vec<u8>,
    pending: Vec<u8>,
    frames: Vec<Vec<u8>>,
    line_log: Vec<(char, bool)>,
    reads: usize,
    clears: usize,
}

impl EchoTransport {
    fn with_mem(mem: Vec<u8>) -> Self {
        EchoTransport {
            mem,
            pending: Vec::new(),
            frames: Vec::new(),
            line_log: Vec::new(),
            reads: 0,
            clears: 0,
        }
    }
}

impl Transport for EchoTransport {
    fn clear(&mut self) -> Result<(), DeviceError> {
        self.clears += 1;
        Ok(())
    }

    fn write(&mut self, frame: &Vec<u8>) -> Result<usize, DeviceError> {
        self.frames.push(frame.clone());
        if frame.len() >= 10 && frame[0] == 0x00 && frame[1] == 0x01 {
            let addr = u32::from_le_bytes([frame[2], frame[3], frame[4], frame[5]]) as usize;
            let len = u32::from_le_bytes([frame[6], frame[7], frame[8], frame[9]]) as usize;
            self.pending.extend_from_slice(&self.mem[addr..addr + len]);
        }
        if frame.len() >= 6 && frame[0] == 0x00 && frame[1] == 0x00 {
            self.pending.extend_from_slice(&frame[6..]);
        }
        Ok(frame.len())
    }

    fn flush(&mut self) -> Result<(), DeviceError> {
        Ok(())
    }

    fn read_into(&mut self, buf: &mut Vec<u8>, offset: usize) -> Result<usize, DeviceError> {
        self.reads += 1;
        let n = std::cmp::min(buf.len() - offset, self.pending.len());
        for i in 0..n {
            buf[offset + i] = self.pending[i];
        }
        self.pending.drain(..n);
        Ok(n)
    }

    fn set_data_terminal_ready(&mut self, level: bool) -> Result<(), DeviceError> {
        self.line_log.push(('D', level));
        Ok(())
    }

    fn set_request_to_send(&mut self, level: bool) -> Result<(), DeviceError> {
        self.line_log.push(('R', level));
        Ok(())
    }

    fn wait_data_set_ready(&mut self) -> Result<(), DeviceError> {
        Ok(())
    }
}

/// A transport that never delivers a response byte.
struct SilentTransport {
    reads: usize,
}

impl Transport for SilentTransport {
    fn clear(&mut self) -> Result<(), DeviceError> {
        Ok(())
    }

    fn write(&mut self, _frame: &Vec<u8>) -> Result<usize, DeviceError> {
        Ok(0)
    }

    fn flush(&mut self) -> Result<(), DeviceError> {
        Ok(())
    }

    fn read_into(&mut self, _buf: &mut Vec<u8>, _offset: usize) -> Result<usize, DeviceError> {
        self.reads += 1;
        Ok(0)
    }

    fn set_data_terminal_ready(&mut self, _level: bool) -> Result<(), DeviceError> {
        Ok(())
    }

    fn set_request_to_send(&mut self, _level: bool) -> Result<(), DeviceError> {
        Ok(())
    }

    fn wait_data_set_ready(&mut self) -> Result<(), DeviceError> {
        Ok(())
    }
}

/// A transport whose writes start failing after `ok_writes` successes.
struct FlakyTransport {
    ok_writes: usize,
    frames: Vec<Vec<u8>>,
}

impl Transport for FlakyTransport {
    fn clear(&mut self) -> Result<(), DeviceError> {
        Ok(())
    }

    fn write(&mut self, frame: &Vec<u8>) -> Result<usize, DeviceError> {
        if self.frames.len() < self.ok_writes {
            self.frames.push(frame.clone());
            Ok(frame.len())
        } else {
            Err(DeviceError::TransportError)
        }
    }

    fn flush(&mut self) -> Result<(), DeviceError> {
        Ok(())
    }

    fn read_into(&mut self, buf: &mut Vec<u8>, offset: usize) -> Result<usize, DeviceError> {
        let n = buf.len() - offset;
        for i in 0..n {
            buf[offset + i] = 0x55;
        }
        Ok(n)
    }

    fn set_data_terminal_ready(&mut self, _level: bool) -> Result<(), DeviceError> {
        Ok(())
    }

    fn set_request_to_send(&mut self, _level: bool) -> Result<(), DeviceError> {
        Ok(())
    }

    fn wait_data_set_ready(&mut self) -> Result<(), DeviceError> {
        Ok(())
    }
}

fn device_mem() -> Vec<u8> {
    (0..2048u32).map(|i| (i % 251) as u8).collect()
}

#[test]
fn scenario_read_forty_bytes_in_two_transactions() {
    let mem = device_mem();
    let mut mgr = SerialPortDataManager::new(EchoTransport::with_mem(mem.clone()), FakeClock {
        now: 0,
    });
    let data = mgr.read_data(0x100, 40).unwrap();
    assert_eq!(data.len(), 40);
    assert_eq!(&data[..], &mem[0x100..0x100 + 40]);
    assert_eq!(mgr.port.frames.len(), 2);
    assert_eq!(mgr.port.frames[0], encode_read_frame(0x100, 32));
    assert_eq!(mgr.port.frames[1], encode_read_frame(0x120, 8));
}

#[test]
fn read_reassembles_the_full_range_in_order() {
    let mem = device_mem();
    let mut mgr =
        SerialPortDataManager::new(EchoTransport::with_mem(mem.clone()), FakeClock { now: 0 });
    let data = mgr.read_data(7, 1000).unwrap();
    assert_eq!(&data[..], &mem[7..1007]);
}

#[test]
fn read_issues_ceil_of_length_over_thirty_two_transactions() {
    let mem = device_mem();
    let mut mgr =
        SerialPortDataManager::new(EchoTransport::with_mem(mem.clone()), FakeClock { now: 0 });
    mgr.read_data(0, 65).unwrap();
    assert_eq!(mgr.port.frames.len(), 3);
    assert_eq!(mgr.port.frames[0], encode_read_frame(0, 32));
    assert_eq!(mgr.port.frames[1], encode_read_frame(32, 32));
    assert_eq!(mgr.port.frames[2], encode_read_frame(64, 1));
}

#[test]
fn read_of_exact_multiple_has_full_last_chunk() {
    let mem = device_mem();
    let mut mgr =
        SerialPortDataManager::new(EchoTransport::with_mem(mem.clone()), FakeClock { now: 0 });
    mgr.read_data(0, 64).unwrap();
    assert_eq!(mgr.port.frames.len(), 2);
    assert_eq!(mgr.port.frames[1], encode_read_frame(32, 32));
}

#[test]
fn write_issues_chunked_frames_with_payload_slices() {
    let data: Vec<u8> = (0..70u8).collect();
    let mut mgr = SerialPortDataManager::new(EchoTransport::with_mem(Vec::new()), FakeClock {
        now: 0,
    });
    mgr.write_data(0x40, &data).unwrap();
    assert_eq!(mgr.port.frames.len(), 3);
    assert_eq!(mgr.port.frames[0], encode_write_frame(0x40, &data[0..32]));
    assert_eq!(mgr.port.frames[1], encode_write_frame(0x60, &data[32..64]));
    assert_eq!(mgr.port.frames[2], encode_write_frame(0x80, &data[64..70]));
}

#[test]
fn timeout_after_exactly_eleven_zero_reads() {
    let mut mgr = SerialPortDataManager::new(SilentTransport { reads: 0 }, FakeClock { now: 0 });
    let r = mgr.read_data(0, 1);
    assert_eq!(r, Err(DeviceError::TimedOut));
    assert_eq!(mgr.port.reads, 11);
}

#[test]
fn zero_reads_reset_on_any_delivery() {
    // Delivers one byte after every ten zero-length reads: the counter resets
    // and a two-byte read still succeeds.
    struct TricklingTransport {
        calls: usize,
    }
    impl Transport for TricklingTransport {
        fn clear(&mut self) -> Result<(), DeviceError> {
            Ok(())
        }
        fn write(&mut self, _frame: &Vec<u8>) -> Result<usize, DeviceError> {
            Ok(0)
        }
        fn flush(&mut self) -> Result<(), DeviceError> {
            Ok(())
        }
        fn read_into(&mut self, buf: &mut Vec<u8>, offset: usize) -> Result<usize, DeviceError> {
            self.calls += 1;
            if self.calls % 11 == 0 && offset < buf.len() {
                buf[offset] = 0x77;
                Ok(1)
            } else {
                Ok(0)
            }
        }
        fn set_data_terminal_ready(&mut self, _level: bool) -> Result<(), DeviceError> {
            Ok(())
        }
        fn set_request_to_send(&mut self, _level: bool) -> Result<(), DeviceError> {
            Ok(())
        }
        fn wait_data_set_ready(&mut self) -> Result<(), DeviceError> {
            Ok(())
        }
    }
    let mut mgr = SerialPortDataManager::new(TricklingTransport { calls: 0 }, FakeClock { now: 0 });
    let data = mgr.read_data(0, 2).unwrap();
    assert_eq!(data, vec![0x77, 0x77]);
}

#[test]
fn pacing_holds_every_transaction_to_the_minimum_duration() {
    // Default budget is 1200 bytes/sec, so each of the three transactions of
    // a 65-byte read must occupy at least floor(1000 * 32 / 1200) = 26 ms,
    // even though the transport answers instantly.
    let mem = device_mem();
    let mut mgr =
        SerialPortDataManager::new(EchoTransport::with_mem(mem.clone()), FakeClock { now: 0 });
    assert_eq!(mgr.min_gap_ms, 26);
    mgr.read_data(0, 65).unwrap();
    assert!(mgr.clock.now >= 3 * 26);
}

#[test]
fn pacing_follows_the_configured_throughput_budget() {
    let mem = device_mem();
    let mut mgr = SerialPortDataManager::with_throughput(
        EchoTransport::with_mem(mem.clone()),
        FakeClock { now: 0 },
        3200,
    );
    assert_eq!(mgr.min_gap_ms, 10);
    mgr.read_data(0, 100).unwrap();
    assert!(mgr.clock.now >= 4 * 10);
}

#[test]
fn zero_length_read_issues_no_transaction() {
    let mut mgr = SerialPortDataManager::new(EchoTransport::with_mem(Vec::new()), FakeClock {
        now: 0,
    });
    let data = mgr.read_data(0xDEAD, 0).unwrap();
    assert!(data.is_empty());
    assert_eq!(mgr.port.frames.len(), 0);
    assert_eq!(mgr.port.clears, 0);
    assert_eq!(mgr.clock.now, 0);
}

#[test]
fn zero_length_write_issues_no_transaction() {
    let mut mgr = SerialPortDataManager::new(EchoTransport::with_mem(Vec::new()), FakeClock {
        now: 0,
    });
    mgr.write_data(0xDEAD, &[]).unwrap();
    assert_eq!(mgr.port.frames.len(), 0);
    assert_eq!(mgr.port.clears, 0);
}

#[test]
fn write_failure_aborts_without_rolling_back_earlier_chunks() {
    let data: Vec<u8> = vec![9; 96];
    let mut mgr = SerialPortDataManager::new(FlakyTransport { ok_writes: 2, frames: Vec::new() },
        FakeClock { now: 0 });
    let r = mgr.write_data(0, &data);
    assert_eq!(r, Err(DeviceError::TransportError));
    assert_eq!(mgr.port.frames.len(), 2);
    assert_eq!(mgr.port.frames[0], encode_write_frame(0, &data[0..32]));
    assert_eq!(mgr.port.frames[1], encode_write_frame(32, &data[32..64]));
}

#[test]
fn read_failure_propagates_immediately() {
    let mut mgr = SerialPortDataManager::new(FlakyTransport { ok_writes: 0, frames: Vec::new() },
        FakeClock { now: 0 });
    let r = mgr.read_data(0, 8);
    assert_eq!(r, Err(DeviceError::TransportError));
}

#[test]
fn test_diagnostic_echoes_the_payload() {
    let mut mgr = SerialPortDataManager::new(EchoTransport::with_mem(Vec::new()), FakeClock {
        now: 0,
    });
    let payload = vec![0x10, 0x20, 0x30];
    let echoed = mgr.test(&payload).unwrap();
    assert_eq!(echoed, payload);
    assert_eq!(mgr.port.frames.len(), 1);
    assert_eq!(mgr.port.frames[0], vec![0x00, 0x00, 3, 0, 0, 0, 0x10, 0x20, 0x30]);
}

#[test]
fn test_diagnostic_pads_a_short_response_with_zeros() {
    // The Test command reads once and does not retry: whatever the single
    // read leaves unfilled stays zero.
    let mut mgr = SerialPortDataManager::new(SilentTransport { reads: 0 }, FakeClock { now: 0 });
    let echoed = mgr.test(&[1, 2, 3, 4]).unwrap();
    assert_eq!(echoed, vec![0, 0, 0, 0]);
    assert_eq!(mgr.port.reads, 1);
}

#[test]
fn control_lines_bracket_every_transaction() {
    let mem = device_mem();
    let mut mgr =
        SerialPortDataManager::new(EchoTransport::with_mem(mem.clone()), FakeClock { now: 0 });
    mgr.read_data(0x100, 40).unwrap();
    let bracket = [('D', true), ('R', true), ('R', false), ('D', false)];
    assert_eq!(mgr.port.line_log.len(), 8);
    assert_eq!(&mgr.port.line_log[0..4], &bracket);
    assert_eq!(&mgr.port.line_log[4..8], &bracket);
}
