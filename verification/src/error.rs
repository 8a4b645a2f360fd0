//! The ways in which an operation on the serial link fails.

use vstd::prelude::*;

verus! {

/// Why an operation on the serial link failed.
#[derive(Debug, Clone, Copy, PartialEq, Eq)]
pub enum SerialError {
    /// The host offers no serial access: an insecure context, or a browser
    /// without the serial interface.
    Unavailable,
    /// The user chose no port, or the chosen port could not be opened.
    PortError,
    /// No connection is open.
    NotConnected,
    /// The open port exposes no output stream.
    NotWritable,
    /// The open port exposes no input stream.
    NotReadable,
    /// The host reported a failure while reading or writing.
    IoError,
}

impl SerialError {
    /// A sentence for the operator.
    pub fn message(&self) -> (text: &'static str)
        ensures
            text@ == match *self {
                SerialError::Unavailable =>
                    "Web Serial not available. Use Chromium and HTTPS or localhost."@,
                SerialError::PortError => "serial port could not be opened"@,
                SerialError::NotConnected => "serial not connected"@,
                SerialError::NotWritable => "port not writable"@,
                SerialError::NotReadable => "port not readable"@,
                SerialError::IoError => "serial transfer failed"@,
            },
    {
        match self {
            SerialError::Unavailable =>
                "Web Serial not available. Use Chromium and HTTPS or localhost.",
            SerialError::PortError => "serial port could not be opened",
            SerialError::NotConnected => "serial not connected",
            SerialError::NotWritable => "port not writable",
            SerialError::NotReadable => "port not readable",
            SerialError::IoError => "serial transfer failed",
        }
    }
}

} // verus!
