//! Defines error types and codes.

use vstd::prelude::*;

use super::command::CommandTag;

verus! {

/// The kind of an I/O failure met while decoding or transmitting a message.
#[derive(Debug, Clone, Copy, PartialEq, Eq)]
pub enum IoErrorKind {
    /// The input ended in the middle of a value.
    UnexpectedEof,
    /// Any other failure of the underlying transport.
    Other,
}

/// A generic protocol error.
#[derive(Debug, Clone, PartialEq, Eq)]
pub enum ProtocolError {
    /// The version is not supported by this library.
    UnsupportedVersion(u16),
    /// A command other than what we were expecting was received.
    UnexpectedCommand(CommandTag),
    /// The message is invalid.
    Invalid(String),
    /// An I/O error occurred, such as an unexpected EOF while reading a tagstruct.
    Io(IoErrorKind),
    /// The command with this sequence number and tag is not yet implemented.
    Unimplemented(u32, CommandTag),
    /// An error from a remote server.
    ServerError(PulseError),
    /// The server disconnected.
    Timeout,
}

impl ProtocolError {
    /// Whether this is the error for input that ended in the middle of a value.
    pub open spec fn is_eof(self) -> bool {
        self == ProtocolError::Io(IoErrorKind::UnexpectedEof)
    }

    /// Whether this is the error for a malformed message.
    pub open spec fn is_invalid(self) -> bool {
        self is Invalid
    }
}

/// An error code understood by the PulseAudio protocol.
///
/// Can be sent to clients to inform them of a specific error.
#[derive(Debug, Copy, Clone, PartialEq, Eq)]
pub enum PulseError {
    /// Access failure
    AccessDenied,
    /// Unknown command
    Command,
    /// Invalid argument
    Invalid,
    /// Entity exists
    Exist,
    /// No such entity
    NoEntity,
    /// Connection refused
    ConnectionRefused,
    /// Protocol error
    Protocol,
    /// Timeout
    Timeout,
    /// No authentication key
    AuthKey,
    /// Internal error
    Internal,
    /// Connection terminated
    ConnectionTerminated,
    /// Entity killed
    Killed,
    /// Invalid server
    InvalidServer,
    /// Module initialization failed
    ModInitFailed,
    /// Bad state
    BadState,
    /// No data
    NoData,
    /// Incompatible protocol version
    Version,
    /// Data too large
    TooLarge,
    /// Operation not supported (since 0.9.5)
    NotSupported,
    /// The error code was unknown to the client
    Unknown,
    /// Extension does not exist. (since 0.9.12)
    NoExtension,
    /// Obsolete functionality. (since 0.9.15)
    Obsolete,
    /// Missing implementation. (since 0.9.15)
    NotImplemented,
    /// The caller forked without calling execve() and tried to reuse the context. (since 0.9.15)
    Forked,
    /// An IO error happened. (since 0.9.16)
    Io,
    /// Device or resource busy. (since 0.9.17)
    Busy,
}

/// The wire code of an error, as PulseAudio numbers them.
pub open spec fn pulse_error_code(e: PulseError) -> u32 {
    match e {
        PulseError::AccessDenied => 1,
        PulseError::Command => 2,
        PulseError::Invalid => 3,
        PulseError::Exist => 4,
        PulseError::NoEntity => 5,
        PulseError::ConnectionRefused => 6,
        PulseError::Protocol => 7,
        PulseError::Timeout => 8,
        PulseError::AuthKey => 9,
        PulseError::Internal => 10,
        PulseError::ConnectionTerminated => 11,
        PulseError::Killed => 12,
        PulseError::InvalidServer => 13,
        PulseError::ModInitFailed => 14,
        PulseError::BadState => 15,
        PulseError::NoData => 16,
        PulseError::Version => 17,
        PulseError::TooLarge => 18,
        PulseError::NotSupported => 19,
        PulseError::Unknown => 20,
        PulseError::NoExtension => 21,
        PulseError::Obsolete => 22,
        PulseError::NotImplemented => 23,
        PulseError::Forked => 24,
        PulseError::Io => 25,
        PulseError::Busy => 26,
    }
}

/// The error with the given wire code, if there is one.
pub open spec fn pulse_error_from_code(v: u32) -> Option<PulseError> {
    match v {
        1 => Some(PulseError::AccessDenied),
        2 => Some(PulseError::Command),
        3 => Some(PulseError::Invalid),
        4 => Some(PulseError::Exist),
        5 => Some(PulseError::NoEntity),
        6 => Some(PulseError::ConnectionRefused),
        7 => Some(PulseError::Protocol),
        8 => Some(PulseError::Timeout),
        9 => Some(PulseError::AuthKey),
        10 => Some(PulseError::Internal),
        11 => Some(PulseError::ConnectionTerminated),
        12 => Some(PulseError::Killed),
        13 => Some(PulseError::InvalidServer),
        14 => Some(PulseError::ModInitFailed),
        15 => Some(PulseError::BadState),
        16 => Some(PulseError::NoData),
        17 => Some(PulseError::Version),
        18 => Some(PulseError::TooLarge),
        19 => Some(PulseError::NotSupported),
        20 => Some(PulseError::Unknown),
        21 => Some(PulseError::NoExtension),
        22 => Some(PulseError::Obsolete),
        23 => Some(PulseError::NotImplemented),
        24 => Some(PulseError::Forked),
        25 => Some(PulseError::Io),
        26 => Some(PulseError::Busy),
        _ => None,
    }
}

impl PulseError {
    /// Returns the wire code of the error.
    pub fn to_u32(self) -> (r: u32)
        ensures
            r == pulse_error_code(self),
    {
        match self {
            PulseError::AccessDenied => 1,
            PulseError::Command => 2,
            PulseError::Invalid => 3,
            PulseError::Exist => 4,
            PulseError::NoEntity => 5,
            PulseError::ConnectionRefused => 6,
            PulseError::Protocol => 7,
            PulseError::Timeout => 8,
            PulseError::AuthKey => 9,
            PulseError::Internal => 10,
            PulseError::ConnectionTerminated => 11,
            PulseError::Killed => 12,
            PulseError::InvalidServer => 13,
            PulseError::ModInitFailed => 14,
            PulseError::BadState => 15,
            PulseError::NoData => 16,
            PulseError::Version => 17,
            PulseError::TooLarge => 18,
            PulseError::NotSupported => 19,
            PulseError::Unknown => 20,
            PulseError::NoExtension => 21,
            PulseError::Obsolete => 22,
            PulseError::NotImplemented => 23,
            PulseError::Forked => 24,
            PulseError::Io => 25,
            PulseError::Busy => 26,
        }
    }

    /// Returns the error with the given wire code, or `None` for a code that
    /// names no error.
    pub fn from_u32(v: u32) -> (r: Option<PulseError>)
        ensures
            r == pulse_error_from_code(v),
    {
        match v {
            1 => Some(PulseError::AccessDenied),
            2 => Some(PulseError::Command),
            3 => Some(PulseError::Invalid),
            4 => Some(PulseError::Exist),
            5 => Some(PulseError::NoEntity),
            6 => Some(PulseError::ConnectionRefused),
            7 => Some(PulseError::Protocol),
            8 => Some(PulseError::Timeout),
            9 => Some(PulseError::AuthKey),
            10 => Some(PulseError::Internal),
            11 => Some(PulseError::ConnectionTerminated),
            12 => Some(PulseError::Killed),
            13 => Some(PulseError::InvalidServer),
            14 => Some(PulseError::ModInitFailed),
            15 => Some(PulseError::BadState),
            16 => Some(PulseError::NoData),
            17 => Some(PulseError::Version),
            18 => Some(PulseError::TooLarge),
            19 => Some(PulseError::NotSupported),
            20 => Some(PulseError::Unknown),
            21 => Some(PulseError::NoExtension),
            22 => Some(PulseError::Obsolete),
            23 => Some(PulseError::NotImplemented),
            24 => Some(PulseError::Forked),
            25 => Some(PulseError::Io),
            26 => Some(PulseError::Busy),
            _ => None,
        }
    }
}

/// Each error code names exactly one error: decoding the code of an error
/// gives back that error.
pub proof fn lemma_pulse_error_code_roundtrip(e: PulseError)
    ensures
        pulse_error_from_code(pulse_error_code(e)) == Some(e),
{
}


/// The numbers that stand for the server error codes on the wire, as the PulseAudio protocol
/// assigns them, in both directions.
#[verifier::rlimit(100)]
pub proof fn lemma_pulse_error_table()
    ensures
        pulse_error_code(PulseError::AccessDenied) == 1,
        pulse_error_code(PulseError::Command) == 2,
        pulse_error_code(PulseError::Invalid) == 3,
        pulse_error_code(PulseError::Exist) == 4,
        pulse_error_code(PulseError::NoEntity) == 5,
        pulse_error_code(PulseError::ConnectionRefused) == 6,
        pulse_error_code(PulseError::Protocol) == 7,
        pulse_error_code(PulseError::Timeout) == 8,
        pulse_error_code(PulseError::AuthKey) == 9,
        pulse_error_code(PulseError::Internal) == 10,
        pulse_error_code(PulseError::ConnectionTerminated) == 11,
        pulse_error_code(PulseError::Killed) == 12,
        pulse_error_code(PulseError::InvalidServer) == 13,
        pulse_error_code(PulseError::ModInitFailed) == 14,
        pulse_error_code(PulseError::BadState) == 15,
        pulse_error_code(PulseError::NoData) == 16,
        pulse_error_code(PulseError::Version) == 17,
        pulse_error_code(PulseError::TooLarge) == 18,
        pulse_error_code(PulseError::NotSupported) == 19,
        pulse_error_code(PulseError::Unknown) == 20,
        pulse_error_code(PulseError::NoExtension) == 21,
        pulse_error_code(PulseError::Obsolete) == 22,
        pulse_error_code(PulseError::NotImplemented) == 23,
        pulse_error_code(PulseError::Forked) == 24,
        pulse_error_code(PulseError::Io) == 25,
        pulse_error_code(PulseError::Busy) == 26,
        pulse_error_from_code(1) == Some(PulseError::AccessDenied),
        pulse_error_from_code(2) == Some(PulseError::Command),
        pulse_error_from_code(3) == Some(PulseError::Invalid),
        pulse_error_from_code(4) == Some(PulseError::Exist),
        pulse_error_from_code(5) == Some(PulseError::NoEntity),
        pulse_error_from_code(6) == Some(PulseError::ConnectionRefused),
        pulse_error_from_code(7) == Some(PulseError::Protocol),
        pulse_error_from_code(8) == Some(PulseError::Timeout),
        pulse_error_from_code(9) == Some(PulseError::AuthKey),
        pulse_error_from_code(10) == Some(PulseError::Internal),
        pulse_error_from_code(11) == Some(PulseError::ConnectionTerminated),
        pulse_error_from_code(12) == Some(PulseError::Killed),
        pulse_error_from_code(13) == Some(PulseError::InvalidServer),
        pulse_error_from_code(14) == Some(PulseError::ModInitFailed),
        pulse_error_from_code(15) == Some(PulseError::BadState),
        pulse_error_from_code(16) == Some(PulseError::NoData),
        pulse_error_from_code(17) == Some(PulseError::Version),
        pulse_error_from_code(18) == Some(PulseError::TooLarge),
        pulse_error_from_code(19) == Some(PulseError::NotSupported),
        pulse_error_from_code(20) == Some(PulseError::Unknown),
        pulse_error_from_code(21) == Some(PulseError::NoExtension),
        pulse_error_from_code(22) == Some(PulseError::Obsolete),
        pulse_error_from_code(23) == Some(PulseError::NotImplemented),
        pulse_error_from_code(24) == Some(PulseError::Forked),
        pulse_error_from_code(25) == Some(PulseError::Io),
        pulse_error_from_code(26) == Some(PulseError::Busy),
{
}

} // verus!
