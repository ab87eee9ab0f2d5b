//! The version byte of a frame.

use vstd::prelude::*;

verus! {

/// Who sent a frame.
#[derive(Debug, Clone, Copy, PartialEq, Eq, Hash)]
pub enum Direction {
    /// From the client to the server.
    Request,
    /// From the server to the client.
    Response,
}

/// The version byte of a frame: the direction in its highest bit, the number of
/// the protocol version in the other seven.
#[derive(Debug, Clone, Copy, PartialEq, Eq, Hash)]
pub struct Version {
    pub direction: Direction,
    pub number: u8,
}

impl Version {
    /// The version that `byte` stands for.
    pub open spec fn of_byte(byte: u8) -> Version {
        Version {
            direction: if byte & 0x80 != 0 {
                Direction::Response
            } else {
                Direction::Request
            },
            number: byte & 0x7f,
        }
    }

    /// The byte that stands for this version. Of the number only the low seven
    /// bits count.
    pub open spec fn byte(self) -> u8 {
        match self.direction {
            Direction::Response => 0x80 | (self.number & 0x7f),
            Direction::Request => self.number & 0x7f,
        }
    }

    /// The version that `byte` stands for.
    pub fn from_byte(byte: u8) -> (v: Version)
        ensures
            v == Version::of_byte(byte),
    {
        Version {
            direction: if byte & 0x80 != 0 {
                Direction::Response
            } else {
                Direction::Request
            },
            number: byte & 0x7f,
        }
    }

    /// The byte that stands for this version.
    pub fn as_byte(&self) -> (byte: u8)
        ensures
            byte == self.byte(),
    {
        match self.direction {
            Direction::Response => 0x80 | (self.number & 0x7f),
            Direction::Request => self.number & 0x7f,
        }
    }
}

} // verus!
