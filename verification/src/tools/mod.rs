//! The logic of the serial tools: argument checks, parsers, read and wait
//! decisions, and result builders.
pub mod control_ops;
pub mod helpers;
pub mod io_ops;
pub mod pattern_ops;
pub mod polling;
pub mod port_ops;
pub mod stream_ops;
pub mod types;
