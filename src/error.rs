use vstd::prelude::*;

use vstd::string::*;
use vstd::utf8::{decode_utf8, encode_utf8_decode_utf8, valid_utf8};

use crate::message::utf8_str;
use crate::opcode::Opcode;
use crate::text::{decimal_digits, decimal_text, hex_digits, hex_text};
use crate::upgrade::{base64_encode, base64_encoding};

verus! {

/// The ways in which decoding a frame or completing a handshake can fail.
///
/// Every error is terminal for the connection that produced it.
#[derive(Clone, Debug, PartialEq, Eq)]
pub enum Error {
    /// A payload length of 125 or less was sent in the 16-bit form.
    NonCanonical16(u16),
    /// A payload length of 65535 or less was sent in the 64-bit form.
    NonCanonical64(u64),
    /// A frame longer than the protocol or the address space allows.
    FrameTooLong(u64),
    /// A frame with reserved bits set; no extension negotiates them.
    ReservedBits(u8),
    /// A frame with an opcode that is reserved or unknown.
    UnsupportedOpcode(u8),
    /// A control frame whose payload is 126 bytes or longer.
    ControlFrameTooLong(u64),
    /// A control frame without its FIN bit.
    FragmentedControlFrame,
    /// A continuation frame with no fragmented message in progress.
    ContinuationFirst,
    /// A data frame while a fragmented message is in progress.
    ExpectedContinuation(Opcode),
    /// A text message whose payload is not UTF-8.
    InvalidUtf8,
    /// A close message whose payload is one byte, or whose reason is not UTF-8.
    InvalidCloseBody,
    /// The server's response is not well-formed HTTP.
    HttpParse,
    /// The server answered with a status other than 101.
    HttpStatus { code: u16, reason: Option<String> },
    /// The server's response lacks a header.
    MissingServerHeader(String),
    /// A header value is not base64.
    Base64,
    /// The server's accept token is not the one the key asks for.
    AcceptMismatch { expected_token: Vec<u8>, actual_token: Vec<u8> },
    /// The client's request lacks a header.
    MissingClientHeader(String),
    /// The client's request has a header with the wrong value.
    WrongClientHeader { name: String, expected: String, actual: Vec<u8> },
    /// The client's request has a header that lacks a required token.
    ClientHeaderLacks { name: String, expected: String, actual: Vec<u8> },
}

/// The text of a header value in an error message.
pub open spec fn value_text(v: Seq<u8>) -> Seq<char> {
    if valid_utf8(v) {
        decode_utf8(v)
    } else {
        "(a value that is not UTF-8)"@
    }
}

/// The text of an accept token in an error message.
pub open spec fn token_text(t: Seq<u8>) -> Seq<char> {
    if t.len() <= 0x1000_0000 {
        base64_encoding(t)
    } else {
        "(an overlong token)"@
    }
}

/// The name of an opcode in error messages.
pub open spec fn opcode_text(op: Opcode) -> Seq<char> {
    match op {
        Opcode::Text => "Text"@,
        Opcode::Binary => "Binary"@,
        Opcode::Close => "Close"@,
        Opcode::Ping => "Ping"@,
        Opcode::Pong => "Pong"@,
    }
}

/// The human-readable description of an error.
pub open spec fn error_text(e: Error) -> Seq<char> {
    match e {
        Error::NonCanonical16(n) => "payload length "@ + decimal_digits(n as nat)
            + " should not be represented using 16 bits"@,
        Error::NonCanonical64(n) => "payload length "@ + decimal_digits(n as nat)
            + " should not be represented using 64 bits"@,
        Error::FrameTooLong(n) => "frame is too long: "@ + decimal_digits(n as nat) + " bytes ("@
            + hex_digits(n as nat) + ")"@,
        Error::ReservedBits(bits) => "reserved bits are not supported: 0x"@ + hex_digits(
            bits as nat,
        ),
        Error::UnsupportedOpcode(op) => "opcode "@ + decimal_digits(op as nat)
            + " is not supported"@,
        Error::ControlFrameTooLong(n) => "control frames must be shorter than 126 bytes ("@
            + decimal_digits(n as nat) + " bytes is too long)"@,
        Error::FragmentedControlFrame => "control frames must not be fragmented"@,
        Error::ContinuationFirst => "continuation must not be first frame"@,
        Error::ExpectedContinuation(op) => "continuation frame must have continuation opcode, not "@
            + opcode_text(op),
        Error::InvalidUtf8 => "text message is not valid UTF-8"@,
        Error::InvalidCloseBody => "close message must hold a status code and a UTF-8 reason"@,
        Error::HttpParse => "server's response is not valid HTTP"@,
        Error::HttpStatus { code, reason } => "server responded with HTTP error "@ + decimal_digits(
            code as nat,
        ) + match reason {
            Some(r) => ": \""@ + r@ + "\""@,
            None => Seq::empty(),
        },
        Error::MissingServerHeader(name) => "server didn't respond with "@ + name@ + " header"@,
        Error::Base64 => "server's Sec-WebSocket-Accept header is not valid base64"@,
        Error::AcceptMismatch { expected_token, actual_token } =>
            "server responded with incorrect Sec-WebSocket-Accept header: expected "@ + token_text(
            expected_token@,
        ) + ", got "@ + token_text(actual_token@),
        Error::MissingClientHeader(name) => "client didn't provide "@ + name@ + " header"@,
        Error::WrongClientHeader { name, expected, actual } => "client provided incorrect "@
            + name@ + " header: expected "@ + expected@ + ", got "@ + value_text(actual@),
        Error::ClientHeaderLacks { name, expected, actual } => "client provided incorrect "@
            + name@ + " header: expected string containing "@ + expected@ + ", got "@
            + value_text(actual@),
    }
}

/// The name of an opcode, as written in error messages.
fn opcode_name(op: Opcode) -> (r: &'static str)
    ensures
        r@ == opcode_text(op),
{
    match op {
        Opcode::Text => "Text",
        Opcode::Binary => "Binary",
        Opcode::Close => "Close",
        Opcode::Ping => "Ping",
        Opcode::Pong => "Pong",
    }
}

/// Appends a header value to `s`, or a note that it is not UTF-8.
fn append_value(s: &mut String, value: &[u8])
    ensures
        final(s)@ == old(s)@ + value_text(value@),
{
    match utf8_str(value) {
        Some(text) => {
            proof {
                encode_utf8_decode_utf8(text@);
            }
            s.append(text);
        },
        None => s.append("(a value that is not UTF-8)"),
    }
}

/// Appends the base64 text of an accept token to `s`.
fn append_token(s: &mut String, token: &[u8])
    ensures
        final(s)@ == old(s)@ + token_text(token@),
{
    if token.len() <= 0x1000_0000 {
        let text = base64_encode(token);
        s.append(text.as_str());
    } else {
        s.append("(an overlong token)");
    }
}

impl Error {
    /// Returns a human-readable description of the error.
    pub fn to_string(&self) -> (r: String)
        ensures
            r@ == error_text(*self),
    {
        let mut s = String::new();
        match self {
            Error::NonCanonical16(n) => {
                s.append("payload length ");
                s.append(decimal_text(*n as u64).as_str());
                s.append(" should not be represented using 16 bits");
            },
            Error::NonCanonical64(n) => {
                s.append("payload length ");
                s.append(decimal_text(*n).as_str());
                s.append(" should not be represented using 64 bits");
            },
            Error::FrameTooLong(n) => {
                s.append("frame is too long: ");
                s.append(decimal_text(*n).as_str());
                s.append(" bytes (");
                s.append(hex_text(*n).as_str());
                s.append(")");
            },
            Error::ReservedBits(bits) => {
                s.append("reserved bits are not supported: 0x");
                s.append(hex_text(*bits as u64).as_str());
            },
            Error::UnsupportedOpcode(op) => {
                s.append("opcode ");
                s.append(decimal_text(*op as u64).as_str());
                s.append(" is not supported");
            },
            Error::ControlFrameTooLong(n) => {
                s.append("control frames must be shorter than 126 bytes (");
                s.append(decimal_text(*n).as_str());
                s.append(" bytes is too long)");
            },
            Error::FragmentedControlFrame => {
                s.append("control frames must not be fragmented");
            },
            Error::ContinuationFirst => {
                s.append("continuation must not be first frame");
            },
            Error::ExpectedContinuation(op) => {
                s.append("continuation frame must have continuation opcode, not ");
                s.append(opcode_name(*op));
            },
            Error::InvalidUtf8 => {
                s.append("text message is not valid UTF-8");
            },
            Error::InvalidCloseBody => {
                s.append("close message must hold a status code and a UTF-8 reason");
            },
            Error::HttpParse => {
                s.append("server's response is not valid HTTP");
            },
            Error::HttpStatus { code, reason } => {
                s.append("server responded with HTTP error ");
                s.append(decimal_text(*code as u64).as_str());
                if let Some(reason) = reason {
                    s.append(": \"");
                    s.append(reason.as_str());
                    s.append("\"");
                }
            },
            Error::MissingServerHeader(name) => {
                s.append("server didn't respond with ");
                s.append(name.as_str());
                s.append(" header");
            },
            Error::Base64 => {
                s.append("server's Sec-WebSocket-Accept header is not valid base64");
            },
            Error::AcceptMismatch { expected_token, actual_token } => {
                s.append("server responded with incorrect Sec-WebSocket-Accept header: expected ");
                append_token(&mut s, expected_token.as_slice());
                s.append(", got ");
                append_token(&mut s, actual_token.as_slice());
            },
            Error::MissingClientHeader(name) => {
                s.append("client didn't provide ");
                s.append(name.as_str());
                s.append(" header");
            },
            Error::WrongClientHeader { name, expected, actual } => {
                s.append("client provided incorrect ");
                s.append(name.as_str());
                s.append(" header: expected ");
                s.append(expected.as_str());
                s.append(", got ");
                append_value(&mut s, actual.as_slice());
            },
            Error::ClientHeaderLacks { name, expected, actual } => {
                s.append("client provided incorrect ");
                s.append(name.as_str());
                s.append(" header: expected string containing ");
                s.append(expected.as_str());
                s.append(", got ");
                append_value(&mut s, actual.as_slice());
            },
        }
        assert(s@ =~= error_text(*self));
        s
    }
}

} // verus!
