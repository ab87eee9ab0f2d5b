//! The layout of a frame: what the nine bytes of the header say, where the body
//! ends, and what stands at the front of the body.

use crate::compression::{outcome, Compressor};
use crate::endian::{be_nat, read_u128, read_u16, read_u32};
use crate::error::{Error, ErrorView};
use crate::frame::flag::Flag;
use crate::frame::opcode::Opcode;
use crate::frame::version::Version;
use crate::types::{
    parse_bytes, parse_string_list, read_bytes, read_string_list, texts, Parsed,
};
use vstd::prelude::*;
use vstd::slice::{slice_subrange, slice_to_vec};

verus! {

/// The number of bytes of a frame header.
pub const HEADER_LEN: usize = 9;

/// The number of bytes of a tracing id.
pub const UUID_LEN: usize = 16;

/// What the header of a frame says.
#[derive(Debug, Clone, Copy, PartialEq, Eq)]
pub struct FrameHeader {
    /// Version and direction.
    pub version: Version,
    /// The flag byte.
    pub flags: u8,
    /// The number by which an answer is matched to its request.
    pub stream: u16,
    /// The kind of the frame.
    pub opcode: Opcode,
    /// The number of bytes of the body as it stands on the wire.
    pub length: u32,
}

/// A decoded frame.
#[derive(Debug, Clone, PartialEq, Eq)]
pub struct Frame {
    /// Version and direction.
    pub version: Version,
    /// The flags that the header raises.
    pub flags: Vec<Flag>,
    /// The kind of the frame.
    pub opcode: Opcode,
    /// The number by which an answer is matched to its request.
    pub stream: u16,
    /// The payload: unpacked, and without tracing id and warnings.
    pub body: Vec<u8>,
    /// The tracing id, where the header announces one.
    pub tracing_id: Option<u128>,
    /// The warnings, where the header announces them.
    pub warnings: Vec<String>,
}

/// Mathematical content of a [`Frame`].
pub struct FrameView {
    pub version: Version,
    pub flags: Seq<Flag>,
    pub opcode: Opcode,
    pub stream: u16,
    pub body: Seq<u8>,
    pub tracing_id: Option<u128>,
    pub warnings: Seq<Seq<char>>,
}

impl View for Frame {
    type V = FrameView;

    open spec fn view(&self) -> FrameView {
        FrameView {
            version: self.version,
            flags: self.flags@,
            opcode: self.opcode,
            stream: self.stream,
            body: self.body@,
            tracing_id: self.tracing_id,
            warnings: texts(self.warnings@),
        }
    }
}

/// The header at `pos`, where nine bytes are there: version, flags, stream in two
/// bytes, kind, length of the body in four bytes.
pub open spec fn parse_header(s: Seq<u8>, pos: int) -> Option<FrameHeader> {
    if 0 <= pos && pos + 9 <= s.len() {
        Some(
            FrameHeader {
                version: Version::of_byte(s[pos]),
                flags: s[pos + 1],
                stream: be_nat(s.subrange(pos + 2, pos + 4)) as u16,
                opcode: Opcode::of_byte(s[pos + 4]),
                length: be_nat(s.subrange(pos + 5, pos + 9)) as u32,
            },
        )
    } else {
        None
    }
}

/// The frame at `pos` as it stands on the wire, where all of it is there: the
/// header, and as body exactly as many bytes as the header declares.
pub open spec fn raw_frame(s: Seq<u8>, pos: int) -> Option<(FrameHeader, Seq<u8>)> {
    match parse_header(s, pos) {
        Some(h) => if pos + 9 + h.length <= s.len() {
            Some((h, s.subrange(pos + 9, pos + 9 + h.length)))
        } else {
            None
        },
        None => None,
    }
}

/// The identifier that sixteen bytes stand for; other lengths stand for none.
pub open spec fn timeuuid_of(b: Seq<u8>) -> Option<u128> {
    if b.len() == 16 {
        Some(be_nat(b) as u128)
    } else {
        None
    }
}

/// The tracing id at the front of the unpacked body. It is read only where the
/// tracing flag is raised; sixteen bytes that stand for no identifier count as no
/// tracing id.
pub open spec fn parse_tracing(flags: u8, full: Seq<u8>) -> Parsed<Option<u128>> {
    if Flag::Tracing.is_set(flags) {
        match parse_bytes(full, 0, 16) {
            Ok((b, end)) => Ok((timeuuid_of(b), end)),
            Err(e) => Err(e),
        }
    } else {
        Ok((None, 0))
    }
}

/// The warnings at `pos` of the unpacked body. They are read only where the
/// warning flag is raised.
pub open spec fn parse_warnings(flags: u8, full: Seq<u8>, pos: int) -> Parsed<Seq<Seq<char>>> {
    if Flag::Warning.is_set(flags) {
        parse_string_list(full, pos)
    } else {
        Ok((Seq::empty(), pos))
    }
}

/// The frame with header `h` and unpacked body `full`: tracing id and warnings
/// are taken from the front of the body as the flags announce them, and what is
/// left is the payload.
pub open spec fn frame_of(h: FrameHeader, full: Seq<u8>) -> Result<FrameView, ErrorView> {
    match parse_tracing(h.flags, full) {
        Ok((tracing_id, at1)) => match parse_warnings(h.flags, full, at1) {
            Ok((warnings, at2)) => Ok(
                FrameView {
                    version: h.version,
                    flags: Flag::collection(h.flags),
                    opcode: h.opcode,
                    stream: h.stream,
                    body: full.subrange(at2, full.len() as int),
                    tracing_id,
                    warnings,
                },
            ),
            Err(e) => Err(e),
        },
        Err(e) => Err(e),
    }
}

/// The unpacked body, given what the compressor made of the body on the wire: a
/// failure of the compressor is a failure of the frame, with its description.
pub open spec fn unpacked(d: Result<Seq<u8>, Seq<char>>) -> Result<Seq<u8>, ErrorView> {
    match d {
        Ok(full) => Ok(full),
        Err(text) => Err(ErrorView::Compression(text)),
    }
}

/// The frame with header `h`, given its unpacked body or the reason why there is
/// none.
pub open spec fn frame_from(h: FrameHeader, full: Result<Seq<u8>, ErrorView>) -> Result<
    FrameView,
    ErrorView,
> {
    match full {
        Ok(full) => frame_of(h, full),
        Err(e) => Err(e),
    }
}

/// A frame is all there exactly when its header is and the buffer holds as many
/// bytes behind the header as it declares; the body on the wire then has exactly
/// the declared length.
pub proof fn lemma_body_has_declared_length(s: Seq<u8>, pos: int)
    requires
        0 <= pos,
    ensures
        raw_frame(s, pos) is Some <==> pos + 9 <= s.len() && pos + 9 + be_nat(
            s.subrange(pos + 5, pos + 9),
        ) <= s.len(),
        raw_frame(s, pos) matches Some((h, raw)) ==> raw.len() == h.length && h.length == be_nat(
            s.subrange(pos + 5, pos + 9),
        ),
{
    if pos + 9 <= s.len() {
        crate::endian::lemma_be_nat_bound(s.subrange(pos + 5, pos + 9));
        crate::endian::lemma_pow256_values();
    }
}

/// A body is handed on unchanged where the compression flag is down; where
/// neither the tracing flag nor the warning flag is raised, nothing is taken
/// from its front, and the frame has no tracing id and no warnings. Where only
/// the tracing flag is down, the warnings start at the front of the body.
pub proof fn lemma_flags_gate_sections(h: FrameHeader, full: Seq<u8>)
    ensures
        !Flag::Tracing.is_set(h.flags) ==> parse_tracing(h.flags, full) == Ok::<
            (Option<u128>, int),
            ErrorView,
        >((None, 0)),
        !Flag::Tracing.is_set(h.flags) && !Flag::Warning.is_set(h.flags) ==> (frame_of(h, full)
            matches Ok(f) && f.body == full && f.tracing_id is None && f.warnings.len() == 0),
        !Flag::Tracing.is_set(h.flags) ==> (frame_of(h, full) matches Ok(f) ==> f.tracing_id
            is None),
        !Flag::Warning.is_set(h.flags) ==> (frame_of(h, full) matches Ok(f) ==> f.warnings.len()
            == 0),
        Flag::Tracing.is_set(h.flags) && !Flag::Warning.is_set(h.flags) ==> (frame_of(h, full)
            matches Ok(f) ==> f.body == full.subrange(16, full.len() as int)),
{
    assert(full.subrange(0, full.len() as int) =~= full);
}

/// Reads the header at `pos`, where nine bytes are there.
pub fn read_header(bytes: &[u8], pos: usize) -> (r: Option<FrameHeader>)
    ensures
        r == parse_header(bytes@, pos as int),
{
    if pos > bytes.len() || bytes.len() - pos < HEADER_LEN {
        return None;
    }
    let stream_bytes = slice_subrange(bytes, pos + 2, pos + 4);
    let length_bytes = slice_subrange(bytes, pos + 5, pos + 9);
    assert(stream_bytes@.subrange(0, 2) =~= stream_bytes@);
    assert(length_bytes@.subrange(0, 4) =~= length_bytes@);
    Some(
        FrameHeader {
            version: Version::from_byte(bytes[pos]),
            flags: bytes[pos + 1],
            stream: read_u16(stream_bytes),
            opcode: Opcode::from_byte(bytes[pos + 4]),
            length: read_u32(length_bytes),
        },
    )
}

/// The identifier that sixteen bytes stand for; there is none for other lengths.
pub fn decode_timeuuid(bytes: &[u8]) -> (id: Option<u128>)
    ensures
        id == timeuuid_of(bytes@),
{
    if bytes.len() == UUID_LEN {
        assert(bytes@.subrange(0, 16) =~= bytes@);
        Some(read_u128(bytes))
    } else {
        None
    }
}

/// Unpacks the body of a frame: handed on as it is where the compression flag is
/// down, and given to the compressor where it is raised. What the compressor
/// returns for the body decides the result then.
pub fn unpack_body<C: Compressor>(flags: u8, raw: Vec<u8>, compressor: &C) -> (r: Result<
    Vec<u8>,
    Error,
>)
    ensures
        !Flag::Compression.is_set(flags) ==> r == Ok::<Vec<u8>, Error>(raw),
        Flag::Compression.is_set(flags) ==> exists|d: Result<Vec<u8>, String>|
            #[trigger] call_ensures(C::decode, (compressor, raw), d) && unpacked_as(
                r,
                unpacked(outcome(d)),
            ),
{
    if Flag::has_compression(flags) {
        let d = compressor.decode(raw);
        unpack_outcome(d)
    } else {
        Ok(raw)
    }
}

/// An unpacked body, or the failure to unpack it, has the given content.
pub open spec fn unpacked_as(r: Result<Vec<u8>, Error>, want: Result<Seq<u8>, ErrorView>) -> bool {
    match want {
        Ok(full) => r matches Ok(x) && x@ == full,
        Err(w) => r matches Err(e) && e@ == w,
    }
}

/// Turns what a compressor returned into the unpacked body or the failure of the
/// frame.
pub fn unpack_outcome(d: Result<Vec<u8>, String>) -> (r: Result<Vec<u8>, Error>)
    ensures
        unpacked_as(r, unpacked(outcome(d))),
        d matches Ok(full) ==> r == Ok::<Vec<u8>, Error>(full),
{
    match d {
        Ok(full) => Ok(full),
        Err(text) => Err(Error::Compression(text)),
    }
}

/// Builds the frame with header `header` from its unpacked body.
pub fn assemble(header: FrameHeader, full: Vec<u8>) -> (r: Result<Frame, Error>)
    ensures
        match frame_of(header, full@) {
            Ok(f) => r matches Ok(x) && x@ == f,
            Err(w) => r matches Err(e) && e@ == w,
        },
{
    let bytes = full.as_slice();
    let (tracing_id, at1) = if Flag::has_tracing(header.flags) {
        let (id_bytes, end) = read_bytes(bytes, 0, UUID_LEN)?;
        (decode_timeuuid(id_bytes), end)
    } else {
        (None, 0)
    };
    let (warnings, at2) = if Flag::has_warning(header.flags) {
        read_string_list(bytes, at1)?
    } else {
        assert(texts(Seq::<String>::empty()) =~= Seq::<Seq<char>>::empty());
        (Vec::new(), at1)
    };
    let body = slice_to_vec(slice_subrange(bytes, at2, bytes.len()));
    Ok(
        Frame {
            version: header.version,
            flags: Flag::get_collection(header.flags),
            opcode: header.opcode,
            stream: header.stream,
            body,
            tracing_id,
            warnings,
        },
    )
}

} // verus!
