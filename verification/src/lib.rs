//! Ephemeral port assignment and the socket-level logic of a std-like TCP shim
//! over smoltcp.

pub mod port;
pub mod addr;
pub mod smol;
pub mod shim;
