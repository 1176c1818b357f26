//! Verified core of an input-sharing client: how remote pointer, keyboard and gesture events
//! become Linux input events, and how an incoming connection is presented to its user.

pub mod codes;
pub mod device;
pub mod double;
pub mod emulation;
pub mod event;
pub mod gesture;
pub mod incoming_object;
pub mod incoming_row;
pub mod input;
pub mod laws;
pub mod plan;
pub mod touch;
