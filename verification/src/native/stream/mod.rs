//! The capture, encode and send data plane.

pub mod capture;
pub mod depth;
pub mod encode;
pub mod probe;
pub mod send;
pub mod send_thread;
pub mod session_watch;
pub mod sources;
