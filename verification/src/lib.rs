//! Verified core of a JTAG debug-probe cable driver.
//!
//! The crate models the Test Access Port (TAP) state machine, the
//! least-significant-bit-first packing of register shift data, the
//! chunked encoding of TMS sequences into MPSSE commands, and the
//! FIFO discipline of pipelined reads.

pub mod bits;
pub mod cable;
pub mod loopback;
pub mod mpsse;
pub mod queue;
pub mod tap;
