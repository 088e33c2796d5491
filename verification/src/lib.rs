//! SRWP: a point-to-point command/response protocol for addressed byte-range
//! reads and writes against a device behind a half-duplex serial transport.
//!
//! The protocol engine is layered, leaf first:
//! - [`codec`]: the exact wire bytes of the three command frames;
//! - [`chunks`]: the arithmetic that splits an arbitrary-length request into
//!   bounded transactions, and what their concatenated responses mean;
//! - [`transport`]: the capability interfaces the engine consumes — a byte
//!   transport with two output control lines and one input status line, and a
//!   millisecond clock for pacing;
//! - [`srwp`]: the transaction executor and the chunked, paced read/write
//!   engine;
//! - [`device`]: naming and connecting transports as addressable devices.

pub mod chunks;
pub mod codec;
pub mod device;
pub mod error;
pub mod srwp;
pub mod transport;
