//! SafePOSIX core: the verified heart of an in-process POSIX emulation layer.
//!
//! A sandboxed process (a "cage") runs against this library instead of the
//! host kernel.  The library owns the virtual filesystem metadata with its
//! journal and snapshot persistence, the socket state machine spanning
//! emulated Unix-domain sockets and host-kernel inet sockets, and the
//! readiness multiplexers (select / poll / epoll).  Host-kernel interaction
//! and disk I/O live outside the library; every kernel answer reaches the
//! functions here as a plain value, so the state transitions are verified for
//! every possible answer.

pub mod bytesio;
pub mod errnos;
pub mod fs;
pub mod paths;
pub mod serial;
pub mod decode;
pub mod roundtrip;
pub mod persist;
pub mod recover;
pub mod types;
pub mod pipes;
pub mod net_types;
pub mod cage;
pub mod net_calls;
pub mod hostfs;
pub mod select_calls;
pub mod emfile;
