//! Master/slave request-response protocol engine for addressable servo
//! devices on a half-duplex byte stream.
//!
//! The crate is organised as:
//! - [`packet`]: the stateless frame codec — header fields, payload
//!   slice, checksum computation and validation over a byte region.
//! - [`protocol`]: the incremental, resumable frame assembler, the
//!   command builders, and the master/slave exchange state machines,
//!   all polymorphic over a minimal non-blocking byte-stream capability
//!   and a caller-supplied timeout predicate.
//! - [`device`]: register metadata, timing capabilities, and the
//!   high-level control facade for one servo model.

pub mod device;
pub mod packet;
pub mod protocol;
