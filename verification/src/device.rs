//! Naming and connecting devices.
//!
//! Enumerating candidate transports and opening a raw serial port are the
//! caller's business: the engine only needs something satisfying the
//! [`Transport`] contract. This module turns the names the caller discovered
//! into [`SerialPortDevice`] values and an opened transport into a session.

use vstd::prelude::*;
use crate::srwp::SerialPortDataManager;
use crate::transport::{Clock, Transport};

verus! {

/// A candidate device, named by the path of its serial port.
pub struct SerialPortDevice {
    /// The platform path of the serial port.
    pub path: String,
}

impl<T: Transport, C: Clock> SerialPortDataManager<T, C> {
    /// One [`SerialPortDevice`] per discovered port name, in the order given.
    pub fn find_devices(port_names: Vec<String>) -> (devices: Vec<SerialPortDevice>)
        ensures
            devices@.len() == port_names@.len(),
            forall|i: int|
                0 <= i < devices@.len() ==> #[trigger] devices@[i].path@ == port_names@[i]@,
    {
        let mut devices: Vec<SerialPortDevice> = Vec::new();
        let mut i: usize = 0;
        while i < port_names.len()
            invariant
                i <= port_names@.len(),
                devices@.len() == i,
                forall|j: int|
                    0 <= j < i ==> #[trigger] devices@[j].path@ == port_names@[j]@,
            decreases port_names@.len() - i,
        {
            devices.push(SerialPortDevice::new(port_names[i].as_str()));
            i = i + 1;
        }
        devices
    }
}

impl SerialPortDevice {
    /// A device named by `path`.
    pub fn new(path: &str) -> (device: Self)
        ensures
            device.path@ == path@,
    {
        SerialPortDevice { path: path.to_owned() }
    }

    /// A session over `port`, paced by `clock` to the default throughput
    /// budget; `port` is the opened transport of this device's serial port.
    pub fn connect<T: Transport, C: Clock>(&self, port: T, clock: C) -> (r: SerialPortDataManager<
        T,
        C,
    >)
        ensures
            r.port == port,
            r.clock == clock,
            r.min_gap_ms == 1000 * (crate::chunks::MAX_BYTES_PER_TRANSACTION as int) / (
            crate::srwp::MAX_BYTES_PER_SECOND as int),
    {
        SerialPortDataManager::new(port, clock)
    }
}

} // verus!
