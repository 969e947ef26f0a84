pub mod codec;
pub mod error;
pub mod prompts;
pub mod resources;
pub mod security;
pub mod serial;
pub mod server;
pub mod text;
pub mod tools;
pub mod transport;

pub use error::{Result, SerialError};
