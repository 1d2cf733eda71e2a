//! Verified core of a tunnelling gateway: the byte obfuscation, the
//! heart-beat codec, the per-connection state machines ("lines") and the
//! gateway's bookkeeping over its table of lines.  Sockets, epoll, files and
//! the clock stay with the caller, which hands the library the bytes it read
//! and the time it read, and carries out the sends and registrations that the
//! library decides on.
use vstd::prelude::*;

pub mod config;
pub mod gate;
pub mod global;
pub mod line;
pub mod log;
pub mod text;

verus! {
} // verus!
