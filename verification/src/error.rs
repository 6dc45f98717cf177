//! The failures that the protocol layer reports.

use vstd::prelude::*;

verus! {

/// Why a command, a reply or a telemetry record could not be handled.
#[derive(Debug, Clone, Copy, PartialEq, Eq, Structural)]
pub enum Error {
    /// The command text cannot be read: no words, an unknown keyword, a
    /// wrong number of arguments, or an argument that is no numeral.
    Syntax,
    /// A numeric field lies outside the range that its command allows.
    ArgumentOutOfRange,
    /// The command belongs to the mission-pad part of the protocol, which
    /// has no wire form here.
    UnsupportedCommand,
    /// The operating system failed to bind, send or receive.
    SocketFailure,
    /// No reply arrived within the bound.
    ResponseTimeout,
    /// A telemetry record had the wrong number of fields or a value that
    /// cannot be read.
    MalformedTelemetry,
    /// A command was submitted while another was still in flight.
    ChannelBusy,
}

impl Error {
    /// The text that tells a client of this failure.
    pub open spec fn text(self) -> Seq<char> {
        match self {
            Error::Syntax => "error: syntax"@,
            Error::ArgumentOutOfRange => "error: argument out of range"@,
            Error::UnsupportedCommand => "error: unsupported command"@,
            Error::SocketFailure => "error: socket failure"@,
            Error::ResponseTimeout => "error: response timeout"@,
            Error::MalformedTelemetry => "error: malformed telemetry"@,
            Error::ChannelBusy => "error: channel busy"@,
        }
    }

    /// The text that tells a client of this failure.
    pub fn message(&self) -> (s: &'static str)
        ensures
            s@ == self.text(),
    {
        match self {
            Error::Syntax => "error: syntax",
            Error::ArgumentOutOfRange => "error: argument out of range",
            Error::UnsupportedCommand => "error: unsupported command",
            Error::SocketFailure => "error: socket failure",
            Error::ResponseTimeout => "error: response timeout",
            Error::MalformedTelemetry => "error: malformed telemetry",
            Error::ChannelBusy => "error: channel busy",
        }
    }
}

} // verus!
