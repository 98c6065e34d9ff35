//! Protocol engine for streaming a captured surface to remote viewers and
//! forwarding their input back to the host.
pub mod double_buffer;
pub mod frame;
pub mod input;
pub mod protocol;
pub mod session;
pub mod text;
