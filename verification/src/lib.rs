//! Control of a Kenwood-protocol transceiver over a serial link, written
//! without I/O of its own.
//!
//! The library owns every decision of the serial transport: the lifecycle of
//! the one connection and its one reader, the bytes of each command, the
//! decoding of received chunks, the assembly of `;`-terminated frames and the
//! background drain. The program around it performs what the library asks for
//! (select a port, write bytes, read a chunk, sleep) and reports back what the
//! host answered.

pub mod error;
pub mod frame;
pub mod kenwood;
pub mod range;
pub mod serial;
pub mod text;
pub mod timestamp;
