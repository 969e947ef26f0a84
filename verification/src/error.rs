//! The error type of the serial layer.
use crate::text::{decimal, push_str, u64_decimal};
use vstd::prelude::*;
use vstd::string::*;

verus! {

/// std's I/O error.
#[verifier::external_type_specification]
#[verifier::external_body]
pub struct ExIoError(std::io::Error);

#[derive(Debug)]
pub enum SerialError {
    OpenFailed(String),
    PortAlreadyOpen(String),
    ConnectionNotFound(String),
    InvalidBaudRate(u32),
    ReadTimeout,
    IoError(std::io::Error),
}

pub type Result<T> = std::result::Result<T, SerialError>;

/// `Display` of std's I/O error.
#[verifier::external_body]
fn io_error_text(e: &std::io::Error) -> String {
    e.to_string()
}

impl SerialError {
    /// The fixed text that starts the message of each error.
    pub open spec fn message_prefix(&self) -> Seq<char> {
        match self {
            SerialError::OpenFailed(_) => "Failed to open port: "@,
            SerialError::PortAlreadyOpen(_) => "Port already open: "@,
            SerialError::ConnectionNotFound(_) => "Connection not found: "@,
            SerialError::InvalidBaudRate(_) => "Invalid baud rate: "@,
            SerialError::ReadTimeout => "Read timeout"@,
            SerialError::IoError(_) => "I/O error: "@,
        }
    }

    /// The whole message of every error but an I/O error, whose text after
    /// the prefix comes from std.
    pub open spec fn known_message(&self) -> Option<Seq<char>> {
        match self {
            SerialError::OpenFailed(s) => Some(self.message_prefix() + s@),
            SerialError::PortAlreadyOpen(s) => Some(self.message_prefix() + s@),
            SerialError::ConnectionNotFound(s) => Some(self.message_prefix() + s@),
            SerialError::InvalidBaudRate(b) => Some(self.message_prefix() + decimal(*b as nat)),
            SerialError::ReadTimeout => Some(self.message_prefix()),
            SerialError::IoError(_) => None,
        }
    }

    /// The human-readable message of the error; an I/O error contributes
    /// its own `Display` text after the prefix.
    pub fn message(&self) -> (m: String)
        ensures
            self.message_prefix().is_prefix_of(m@),
            self matches SerialError::OpenFailed(s) ==> m@ == self.message_prefix() + s@,
            self matches SerialError::PortAlreadyOpen(s) ==> m@ == self.message_prefix() + s@,
            self matches SerialError::ConnectionNotFound(s) ==> m@ == self.message_prefix() + s@,
            self matches SerialError::InvalidBaudRate(b) ==> m@ == self.message_prefix()
                + decimal(b as nat),
            self is ReadTimeout ==> m@ == self.message_prefix(),
            self.known_message() matches Some(t) ==> m@ == t,
    {
        match self {
            SerialError::OpenFailed(s) => {
                let mut m = String::from_str("Failed to open port: ");
                push_str(&mut m, s.as_str());
                m
            },
            SerialError::PortAlreadyOpen(s) => {
                let mut m = String::from_str("Port already open: ");
                push_str(&mut m, s.as_str());
                m
            },
            SerialError::ConnectionNotFound(s) => {
                let mut m = String::from_str("Connection not found: ");
                push_str(&mut m, s.as_str());
                m
            },
            SerialError::InvalidBaudRate(b) => {
                let mut m = String::from_str("Invalid baud rate: ");
                let d = u64_decimal(*b as u64);
                push_str(&mut m, d.as_str());
                m
            },
            SerialError::ReadTimeout => String::from_str("Read timeout"),
            SerialError::IoError(e) => {
                let mut m = String::from_str("I/O error: ");
                let t = io_error_text(e);
                push_str(&mut m, t.as_str());
                m
            },
        }
    }
}

} // verus!
