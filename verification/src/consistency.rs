//! Consistency levels and their two-byte code.

use crate::endian::u16_bytes;
use crate::error::{Error, ErrorView};
use crate::types::{holds_at, lemma_parse_u16_wire, parse_u16, read_short, u16_wire, Parsed};
use vstd::prelude::*;

verus! {

/// How many replicas have to answer before a request counts as done.
#[derive(Debug, Clone, Copy, PartialEq, Eq, Hash)]
pub enum Consistency {
    Any,
    One,
    Two,
    Three,
    Quorum,
    All,
    LocalQuorum,
    EachQuorum,
    Serial,
    LocalSerial,
    LocalOne,
    /// Any code that names none of the levels above.
    Unknown,
}

impl Consistency {
    /// The code that stands for a level on the wire.
    pub open spec fn code(self) -> u16 {
        match self {
            Consistency::Any => 0,
            Consistency::One => 1,
            Consistency::Two => 2,
            Consistency::Three => 3,
            Consistency::Quorum => 4,
            Consistency::All => 5,
            Consistency::LocalQuorum => 6,
            Consistency::EachQuorum => 7,
            Consistency::Serial => 8,
            Consistency::LocalSerial => 9,
            Consistency::LocalOne => 10,
            Consistency::Unknown => 99,
        }
    }

    /// The level that a code stands for.
    pub open spec fn of_code(code: u16) -> Consistency {
        if code == 0 {
            Consistency::Any
        } else if code == 1 {
            Consistency::One
        } else if code == 2 {
            Consistency::Two
        } else if code == 3 {
            Consistency::Three
        } else if code == 4 {
            Consistency::Quorum
        } else if code == 5 {
            Consistency::All
        } else if code == 6 {
            Consistency::LocalQuorum
        } else if code == 7 {
            Consistency::EachQuorum
        } else if code == 8 {
            Consistency::Serial
        } else if code == 9 {
            Consistency::LocalSerial
        } else if code == 10 {
            Consistency::LocalOne
        } else {
            Consistency::Unknown
        }
    }

    /// The code that stands for this level on the wire.
    pub fn as_short(&self) -> (code: u16)
        ensures
            code == self.code(),
    {
        match self {
            Consistency::Any => 0,
            Consistency::One => 1,
            Consistency::Two => 2,
            Consistency::Three => 3,
            Consistency::Quorum => 4,
            Consistency::All => 5,
            Consistency::LocalQuorum => 6,
            Consistency::EachQuorum => 7,
            Consistency::Serial => 8,
            Consistency::LocalSerial => 9,
            Consistency::LocalOne => 10,
            Consistency::Unknown => 99,
        }
    }

    /// The level that `code` stands for.
    pub fn from_short(code: u16) -> (level: Consistency)
        ensures
            level == Consistency::of_code(code),
    {
        match code {
            0 => Consistency::Any,
            1 => Consistency::One,
            2 => Consistency::Two,
            3 => Consistency::Three,
            4 => Consistency::Quorum,
            5 => Consistency::All,
            6 => Consistency::LocalQuorum,
            7 => Consistency::EachQuorum,
            8 => Consistency::Serial,
            9 => Consistency::LocalSerial,
            10 => Consistency::LocalOne,
            _ => Consistency::Unknown,
        }
    }

    /// The two bytes of this level on the wire.
    pub fn into_cbytes(&self) -> (out: Vec<u8>)
        ensures
            out@ == consistency_wire(*self),
    {
        u16_bytes(self.as_short())
    }

    /// Reads a level from the two bytes at `pos`.
    pub fn decode(bytes: &[u8], pos: usize) -> (r: Result<(Consistency, usize), Error>)
        ensures
            match parse_consistency(bytes@, pos as int) {
                Ok((v, end)) => r matches Ok((x, e)) && x == v && e == end,
                Err(w) => r matches Err(e) && e@ == w,
            },
    {
        let (code, end) = read_short(bytes, pos)?;
        Ok((Consistency::from_short(code), end))
    }
}

impl Default for Consistency {
    /// A request asks for one replica unless it says otherwise.
    fn default() -> (level: Consistency)
        ensures
            level == Consistency::One,
    {
        Consistency::One
    }
}

/// Layout of a level: its code in two bytes.
pub open spec fn consistency_wire(level: Consistency) -> Seq<u8> {
    u16_wire(level.code())
}

/// The level whose code stands at `pos`.
pub open spec fn parse_consistency(s: Seq<u8>, pos: int) -> Parsed<Consistency> {
    match parse_u16(s, pos) {
        Ok((code, end)) => Ok((Consistency::of_code(code), end)),
        Err(e) => Err(e),
    }
}

/// A level is read back as written.
pub proof fn lemma_parse_consistency_wire(s: Seq<u8>, pos: int, level: Consistency)
    requires
        holds_at(s, pos, consistency_wire(level)),
    ensures
        parse_consistency(s, pos) == Ok::<(Consistency, int), ErrorView>((level, pos + 2)),
{
    lemma_parse_u16_wire(s, pos, level.code());
}

} // verus!
