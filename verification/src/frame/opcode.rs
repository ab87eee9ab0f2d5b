//! The kinds of frames.

use vstd::prelude::*;

verus! {

/// The kind of a frame.
#[derive(Debug, Clone, Copy, PartialEq, Eq, Hash)]
pub enum Opcode {
    /// The server reports a failure.
    Error,
    Startup,
    Ready,
    Authenticate,
    Options,
    Supported,
    Query,
    Result,
    Prepare,
    Execute,
    Register,
    Event,
    Batch,
    AuthChallenge,
    AuthResponse,
    AuthSuccess,
    /// A byte that names none of the kinds above.
    Other(u8),
}

impl Opcode {
    /// The kind that `byte` stands for.
    pub open spec fn of_byte(byte: u8) -> Opcode {
        if byte == 0x00 {
            Opcode::Error
        } else if byte == 0x01 {
            Opcode::Startup
        } else if byte == 0x02 {
            Opcode::Ready
        } else if byte == 0x03 {
            Opcode::Authenticate
        } else if byte == 0x05 {
            Opcode::Options
        } else if byte == 0x06 {
            Opcode::Supported
        } else if byte == 0x07 {
            Opcode::Query
        } else if byte == 0x08 {
            Opcode::Result
        } else if byte == 0x09 {
            Opcode::Prepare
        } else if byte == 0x0A {
            Opcode::Execute
        } else if byte == 0x0B {
            Opcode::Register
        } else if byte == 0x0C {
            Opcode::Event
        } else if byte == 0x0D {
            Opcode::Batch
        } else if byte == 0x0E {
            Opcode::AuthChallenge
        } else if byte == 0x0F {
            Opcode::AuthResponse
        } else if byte == 0x10 {
            Opcode::AuthSuccess
        } else {
            Opcode::Other(byte)
        }
    }

    /// The byte that stands for this kind.
    pub open spec fn byte(self) -> u8 {
        match self {
            Opcode::Error => 0x00,
            Opcode::Startup => 0x01,
            Opcode::Ready => 0x02,
            Opcode::Authenticate => 0x03,
            Opcode::Options => 0x05,
            Opcode::Supported => 0x06,
            Opcode::Query => 0x07,
            Opcode::Result => 0x08,
            Opcode::Prepare => 0x09,
            Opcode::Execute => 0x0A,
            Opcode::Register => 0x0B,
            Opcode::Event => 0x0C,
            Opcode::Batch => 0x0D,
            Opcode::AuthChallenge => 0x0E,
            Opcode::AuthResponse => 0x0F,
            Opcode::AuthSuccess => 0x10,
            Opcode::Other(byte) => byte,
        }
    }

    /// The kind that `byte` stands for.
    pub fn from_byte(byte: u8) -> (kind: Opcode)
        ensures
            kind == Opcode::of_byte(byte),
    {
        match byte {
            0x00 => Opcode::Error,
            0x01 => Opcode::Startup,
            0x02 => Opcode::Ready,
            0x03 => Opcode::Authenticate,
            0x05 => Opcode::Options,
            0x06 => Opcode::Supported,
            0x07 => Opcode::Query,
            0x08 => Opcode::Result,
            0x09 => Opcode::Prepare,
            0x0A => Opcode::Execute,
            0x0B => Opcode::Register,
            0x0C => Opcode::Event,
            0x0D => Opcode::Batch,
            0x0E => Opcode::AuthChallenge,
            0x0F => Opcode::AuthResponse,
            0x10 => Opcode::AuthSuccess,
            _ => Opcode::Other(byte),
        }
    }

    /// The byte that stands for this kind.
    pub fn as_byte(&self) -> (byte: u8)
        ensures
            byte == self.byte(),
    {
        match self {
            Opcode::Error => 0x00,
            Opcode::Startup => 0x01,
            Opcode::Ready => 0x02,
            Opcode::Authenticate => 0x03,
            Opcode::Options => 0x05,
            Opcode::Supported => 0x06,
            Opcode::Query => 0x07,
            Opcode::Result => 0x08,
            Opcode::Prepare => 0x09,
            Opcode::Execute => 0x0A,
            Opcode::Register => 0x0B,
            Opcode::Event => 0x0C,
            Opcode::Batch => 0x0D,
            Opcode::AuthChallenge => 0x0E,
            Opcode::AuthResponse => 0x0F,
            Opcode::AuthSuccess => 0x10,
            Opcode::Other(byte) => *byte,
        }
    }
}

} // verus!
