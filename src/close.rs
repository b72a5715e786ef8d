use vstd::prelude::*;

use crate::text::{decimal_digits, decimal_text};

verus! {

/// Status code used to indicate why an endpoint is closing the WebSocket connection.
#[derive(Copy, Clone, Debug, PartialEq, Eq, Structural)]
pub enum CloseCode {
    /// Normal closure (1000).
    Normal,
    /// The endpoint is going away (1001).
    Away,
    /// Protocol error (1002).
    Protocol,
    /// The endpoint received a type of data it cannot accept (1003).
    Unsupported,
    /// No status code was present (1005); never sent.
    Status,
    /// The connection was dropped without a close frame (1006); never sent.
    Abnormal,
    /// Data inconsistent with the message type (1007).
    Invalid,
    /// A message violated the endpoint's policy (1008).
    Policy,
    /// A message was too big to process (1009).
    Size,
    /// The server did not negotiate an extension the client needs (1010).
    Extension,
    /// The server hit an unexpected condition (1011).
    Error,
    /// The server is restarting (1012).
    Restart,
    /// The server is overloaded; try again later (1013).
    Again,
    /// The TLS handshake failed (1015); never sent.
    Tls,
    /// A code in 1016..=2999, reserved for the protocol.
    Reserved(u16),
    /// A code in 3000..=3999, registered with IANA.
    Iana(u16),
    /// A code in 4000..=4999, for private use.
    Library(u16),
    /// Any other code.
    Bad(u16),
}

/// The close code that a 16-bit status value stands for.
pub open spec fn close_code_of(code: u16) -> CloseCode {
    if code == 1000 {
        CloseCode::Normal
    } else if code == 1001 {
        CloseCode::Away
    } else if code == 1002 {
        CloseCode::Protocol
    } else if code == 1003 {
        CloseCode::Unsupported
    } else if code == 1005 {
        CloseCode::Status
    } else if code == 1006 {
        CloseCode::Abnormal
    } else if code == 1007 {
        CloseCode::Invalid
    } else if code == 1008 {
        CloseCode::Policy
    } else if code == 1009 {
        CloseCode::Size
    } else if code == 1010 {
        CloseCode::Extension
    } else if code == 1011 {
        CloseCode::Error
    } else if code == 1012 {
        CloseCode::Restart
    } else if code == 1013 {
        CloseCode::Again
    } else if code == 1015 {
        CloseCode::Tls
    } else if 1016 <= code <= 2999 {
        CloseCode::Reserved(code)
    } else if 3000 <= code <= 3999 {
        CloseCode::Iana(code)
    } else if 4000 <= code <= 4999 {
        CloseCode::Library(code)
    } else {
        CloseCode::Bad(code)
    }
}

/// The 16-bit status value of a close code.
pub open spec fn close_code_value(code: CloseCode) -> u16 {
    match code {
        CloseCode::Normal => 1000,
        CloseCode::Away => 1001,
        CloseCode::Protocol => 1002,
        CloseCode::Unsupported => 1003,
        CloseCode::Status => 1005,
        CloseCode::Abnormal => 1006,
        CloseCode::Invalid => 1007,
        CloseCode::Policy => 1008,
        CloseCode::Size => 1009,
        CloseCode::Extension => 1010,
        CloseCode::Error => 1011,
        CloseCode::Restart => 1012,
        CloseCode::Again => 1013,
        CloseCode::Tls => 1015,
        CloseCode::Reserved(c) => c,
        CloseCode::Iana(c) => c,
        CloseCode::Library(c) => c,
        CloseCode::Bad(c) => c,
    }
}

/// Reading a status value as a close code and back gives the value.
pub proof fn lemma_close_code_round_trip(code: u16)
    ensures
        close_code_value(close_code_of(code)) == code,
{
}

impl CloseCode {
    /// Check if this `CloseCode` may be sent in a close frame.
    pub fn is_allowed(self) -> (r: bool)
        ensures
            r == !(self is Bad || self is Reserved || self is Status || self is Abnormal
                || self is Tls),
    {
        match self {
            CloseCode::Bad(_) | CloseCode::Reserved(_) | CloseCode::Status | CloseCode::Abnormal
            | CloseCode::Tls => false,
            _ => true,
        }
    }

    /// Returns the close code of a 16-bit status value.
    pub fn from_u16(code: u16) -> (r: CloseCode)
        ensures
            r == close_code_of(code),
    {
        match code {
            1000 => CloseCode::Normal,
            1001 => CloseCode::Away,
            1002 => CloseCode::Protocol,
            1003 => CloseCode::Unsupported,
            1005 => CloseCode::Status,
            1006 => CloseCode::Abnormal,
            1007 => CloseCode::Invalid,
            1008 => CloseCode::Policy,
            1009 => CloseCode::Size,
            1010 => CloseCode::Extension,
            1011 => CloseCode::Error,
            1012 => CloseCode::Restart,
            1013 => CloseCode::Again,
            1015 => CloseCode::Tls,
            1016..=2999 => CloseCode::Reserved(code),
            3000..=3999 => CloseCode::Iana(code),
            4000..=4999 => CloseCode::Library(code),
            _ => CloseCode::Bad(code),
        }
    }

    /// Returns the 16-bit status value of this close code.
    pub fn value(self) -> (r: u16)
        ensures
            r == close_code_value(self),
    {
        match self {
            CloseCode::Normal => 1000,
            CloseCode::Away => 1001,
            CloseCode::Protocol => 1002,
            CloseCode::Unsupported => 1003,
            CloseCode::Status => 1005,
            CloseCode::Abnormal => 1006,
            CloseCode::Invalid => 1007,
            CloseCode::Policy => 1008,
            CloseCode::Size => 1009,
            CloseCode::Extension => 1010,
            CloseCode::Error => 1011,
            CloseCode::Restart => 1012,
            CloseCode::Again => 1013,
            CloseCode::Tls => 1015,
            CloseCode::Reserved(c) | CloseCode::Iana(c) | CloseCode::Library(c) | CloseCode::Bad(
                c,
            ) => c,
        }
    }
}

impl CloseCode {
    /// Returns the status value in decimal.
    pub fn to_string(&self) -> (r: String)
        ensures
            r@ == decimal_digits(close_code_value(*self) as nat),
    {
        decimal_text(self.value() as u64)
    }
}

impl From<u16> for CloseCode {
    fn from(code: u16) -> (r: CloseCode) {
        CloseCode::from_u16(code)
    }
}

impl vstd::std_specs::convert::FromSpecImpl<u16> for CloseCode {
    open spec fn obeys_from_spec() -> bool {
        true
    }

    open spec fn from_spec(v: u16) -> CloseCode {
        close_code_of(v)
    }
}

impl From<CloseCode> for u16 {
    fn from(code: CloseCode) -> (r: u16) {
        code.value()
    }
}

impl vstd::std_specs::convert::FromSpecImpl<CloseCode> for u16 {
    open spec fn obeys_from_spec() -> bool {
        true
    }

    open spec fn from_spec(v: CloseCode) -> u16 {
        close_code_value(v)
    }
}

/// The status code and reason of a close message.
#[derive(Clone, Debug, PartialEq, Eq)]
pub struct CloseFrame {
    /// The status code.
    pub code: CloseCode,
    /// The reason text.
    pub reason: String,
}

impl CloseFrame {
    /// Returns the status code.
    pub fn code(&self) -> (r: CloseCode)
        ensures
            r == self.code,
    {
        self.code
    }

    /// Returns the reason as a text string.
    pub fn reason(&self) -> (r: &str)
        ensures
            r@ == self.reason@,
    {
        self.reason.as_str()
    }
}

} // verus!
