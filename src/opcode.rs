use vstd::prelude::*;

verus! {

/// Represents an opcode as defined by the WebSocket protocol.
#[derive(Copy, Clone, Debug, PartialEq, Eq, Structural)]
pub enum Opcode {
    /// UTF-8 text.
    Text,
    /// Arbitrary binary data.
    Binary,
    /// Close control frame.
    Close,
    /// Ping control frame.
    Ping,
    /// Pong control frame.
    Pong,
}

/// The 4-bit wire value of an opcode.
pub open spec fn opcode_value(op: Opcode) -> u8 {
    match op {
        Opcode::Text => 1,
        Opcode::Binary => 2,
        Opcode::Close => 8,
        Opcode::Ping => 9,
        Opcode::Pong => 10,
    }
}

/// The opcode that a 4-bit wire value stands for, if it is a supported one.
pub open spec fn opcode_of(data: u8) -> Option<Opcode> {
    if data == 1 {
        Some(Opcode::Text)
    } else if data == 2 {
        Some(Opcode::Binary)
    } else if data == 8 {
        Some(Opcode::Close)
    } else if data == 9 {
        Some(Opcode::Ping)
    } else if data == 10 {
        Some(Opcode::Pong)
    } else {
        None
    }
}

/// Close, Ping and Pong are control opcodes.
pub open spec fn is_control_opcode(op: Opcode) -> bool {
    op == Opcode::Close || op == Opcode::Ping || op == Opcode::Pong
}

/// Reading back the wire value of an opcode gives the opcode.
pub proof fn lemma_opcode_round_trip(op: Opcode)
    ensures
        opcode_of(opcode_value(op)) == Some(op),
{
}

impl Opcode {
    /// Returns `true` if `self` is `Text`.
    pub fn is_text(self) -> (r: bool)
        ensures
            r == (self == Opcode::Text),
    {
        matches!(self, Opcode::Text)
    }

    /// Returns `true` if `self` is `Close`, `Ping` or `Pong`.
    pub fn is_control(self) -> (r: bool)
        ensures
            r == is_control_opcode(self),
    {
        match self {
            Opcode::Text | Opcode::Binary => false,
            _ => true,
        }
    }

    /// Converts `u8` to `Opcode`.
    ///
    /// Returns `None` for unrecognised and unsupported opcodes, and for the
    /// continuation opcode 0, which is not a variant of `Opcode`.
    pub fn try_from(data: u8) -> (r: Option<Opcode>)
        ensures
            r == opcode_of(data),
    {
        match data {
            1 => Some(Opcode::Text),
            2 => Some(Opcode::Binary),
            8 => Some(Opcode::Close),
            9 => Some(Opcode::Ping),
            10 => Some(Opcode::Pong),
            _ => None,
        }
    }

    /// Returns the 4-bit wire value of this opcode.
    pub fn value(self) -> (r: u8)
        ensures
            r == opcode_value(self),
    {
        match self {
            Opcode::Text => 1,
            Opcode::Binary => 2,
            Opcode::Close => 8,
            Opcode::Ping => 9,
            Opcode::Pong => 10,
        }
    }
}

impl From<Opcode> for u8 {
    fn from(opcode: Opcode) -> (r: u8) {
        opcode.value()
    }
}

impl vstd::std_specs::convert::FromSpecImpl<Opcode> for u8 {
    open spec fn obeys_from_spec() -> bool {
        true
    }

    open spec fn from_spec(v: Opcode) -> u8 {
        opcode_value(v)
    }
}

} // verus!
