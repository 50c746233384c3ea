//! Ancillary data for Unix seqpacket sockets: the control message codec,
//! ownership of received file descriptors, and the retry rules of
//! non-blocking message I/O.
//!
//! Everything here works on plain values. The byte layout of control
//! messages is the one of 64-bit little-endian Linux.

pub mod address;
pub mod ancillary;
pub mod io;
pub mod ucred;

pub use address::address_path;
pub use io::check_returned_size;
pub use ucred::UCred;
