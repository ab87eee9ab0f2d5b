//! The elementary fields of the protocol: fixed-width numbers, byte strings and
//! text, each with the layout it has on the wire.

use crate::endian::{
    be_bytes, be_nat, i32_bytes, lemma_be_bytes_len, lemma_be_nat_of_bytes, lemma_pow256_values,
    lemma_signed_of_unsigned, read_i32, read_i64, read_u16, read_u32, signed, u16_bytes, unsigned,
};
use crate::error::{Error, ErrorView};
use vstd::prelude::*;
use vstd::slice::{slice_subrange, slice_to_vec};
use vstd::utf8::{decode_utf8, encode_utf8, encode_utf8_decode_utf8, encode_utf8_valid_utf8, valid_utf8};

verus! {

/// A byte string that the protocol carries behind a four-byte length.
#[derive(Debug, Clone, PartialEq, Eq)]
pub struct CBytes {
    pub bytes: Vec<u8>,
}

impl View for CBytes {
    type V = Seq<u8>;

    open spec fn view(&self) -> Seq<u8> {
        self.bytes@
    }
}

impl CBytes {
    /// Wraps `bytes`.
    pub fn new(bytes: Vec<u8>) -> (b: CBytes)
        ensures
            b@ == bytes@,
    {
        CBytes { bytes }
    }

    /// The bytes themselves.
    pub fn into_plain(self) -> (bytes: Vec<u8>)
        ensures
            bytes@ == self@,
    {
        self.bytes
    }

    /// The bytes themselves.
    pub fn as_plain(&self) -> (bytes: &[u8])
        ensures
            bytes@ == self@,
    {
        self.bytes.as_slice()
    }

    /// The length field and the bytes, as they stand on the wire.
    pub fn into_cbytes(&self) -> (out: Vec<u8>)
        ensures
            out@ == cbytes_wire(self@),
    {
        cbytes_bytes(self.bytes.as_slice())
    }

    /// Reads a byte string behind its signed four-byte length.
    pub fn decode(bytes: &[u8], pos: usize) -> (r: Result<(CBytes, usize), Error>)
        ensures
            match parse_cbytes(bytes@, pos as int) {
                Ok((v, end)) => r matches Ok((x, e)) && x@ == v && e == end,
                Err(w) => r matches Err(e) && e@ == w,
            },
    {
        let (body, end) = read_cbytes(bytes, pos)?;
        Ok((CBytes { bytes: body }, end))
    }
}

/// What reading a field from a buffer gives: the field and the position behind it,
/// or the reason why it could not be read.
pub type Parsed<T> = Result<(T, int), ErrorView>;

/// The buffer `s` holds exactly the bytes `w` from position `pos` on.
pub open spec fn holds_at(s: Seq<u8>, pos: int, w: Seq<u8>) -> bool {
    0 <= pos && pos + w.len() <= s.len() && s.subrange(pos, pos + w.len()) == w
}

/// A buffer that holds `a + b` at `pos` holds `a` there and `b` right behind it.
pub proof fn lemma_holds_at_split(s: Seq<u8>, pos: int, a: Seq<u8>, b: Seq<u8>)
    requires
        holds_at(s, pos, a + b),
    ensures
        holds_at(s, pos, a),
        holds_at(s, pos + a.len(), b),
{
    let w = a + b;
    assert(s.subrange(pos, pos + a.len()) =~= w.subrange(0, a.len() as int));
    assert(w.subrange(0, a.len() as int) =~= a);
    assert(s.subrange(pos + a.len(), pos + a.len() + b.len()) =~= w.subrange(
        a.len() as int,
        w.len() as int,
    ));
    assert(w.subrange(a.len() as int, w.len() as int) =~= b);
}

/// The `n` bytes from `pos` on.
pub open spec fn parse_bytes(s: Seq<u8>, pos: int, n: int) -> Parsed<Seq<u8>> {
    if 0 <= pos && 0 <= n && pos + n <= s.len() {
        Ok((s.subrange(pos, pos + n), pos + n))
    } else {
        Err(ErrorView::UnexpectedEof)
    }
}

/// One byte.
pub open spec fn parse_u8(s: Seq<u8>, pos: int) -> Parsed<u8> {
    match parse_bytes(s, pos, 1) {
        Ok((b, end)) => Ok((b[0], end)),
        Err(e) => Err(e),
    }
}

/// Two bytes as an unsigned number.
pub open spec fn parse_u16(s: Seq<u8>, pos: int) -> Parsed<u16> {
    match parse_bytes(s, pos, 2) {
        Ok((b, end)) => Ok((be_nat(b) as u16, end)),
        Err(e) => Err(e),
    }
}

/// Four bytes as an unsigned number.
pub open spec fn parse_u32(s: Seq<u8>, pos: int) -> Parsed<u32> {
    match parse_bytes(s, pos, 4) {
        Ok((b, end)) => Ok((be_nat(b) as u32, end)),
        Err(e) => Err(e),
    }
}

/// Four bytes as a signed number.
pub open spec fn parse_i32(s: Seq<u8>, pos: int) -> Parsed<i32> {
    match parse_bytes(s, pos, 4) {
        Ok((b, end)) => Ok((signed(be_nat(b), 4) as i32, end)),
        Err(e) => Err(e),
    }
}

/// Eight bytes as a signed number.
pub open spec fn parse_i64(s: Seq<u8>, pos: int) -> Parsed<i64> {
    match parse_bytes(s, pos, 8) {
        Ok((b, end)) => Ok((signed(be_nat(b), 8) as i64, end)),
        Err(e) => Err(e),
    }
}

/// Text behind a two-byte length: the length counts the bytes of its UTF-8 form.
pub open spec fn parse_string(s: Seq<u8>, pos: int) -> Parsed<Seq<char>> {
    match parse_u16(s, pos) {
        Ok((len, at)) => match parse_bytes(s, at, len as int) {
            Ok((b, end)) => if valid_utf8(b) {
                Ok((decode_utf8(b), end))
            } else {
                Err(ErrorView::Utf8)
            },
            Err(e) => Err(e),
        },
        Err(e) => Err(e),
    }
}

/// Bytes behind a signed four-byte length; a negative length stands for no bytes.
pub open spec fn parse_cbytes(s: Seq<u8>, pos: int) -> Parsed<Seq<u8>> {
    match parse_i32(s, pos) {
        Ok((len, at)) => if len < 0 {
            Ok((Seq::empty(), at))
        } else {
            parse_bytes(s, at, len as int)
        },
        Err(e) => Err(e),
    }
}

/// The first `n` of the texts that follow each other from `pos` on.
pub open spec fn parse_strings(s: Seq<u8>, pos: int, n: nat) -> Parsed<Seq<Seq<char>>>
    decreases n,
{
    if n == 0 {
        Ok((Seq::empty(), pos))
    } else {
        match parse_strings(s, pos, (n - 1) as nat) {
            Ok((texts, at)) => match parse_string(s, at) {
                Ok((text, end)) => Ok((texts.push(text), end)),
                Err(e) => Err(e),
            },
            Err(e) => Err(e),
        }
    }
}

/// A list of texts behind a two-byte count.
pub open spec fn parse_string_list(s: Seq<u8>, pos: int) -> Parsed<Seq<Seq<char>>> {
    match parse_u16(s, pos) {
        Ok((n, at)) => parse_strings(s, at, n as nat),
        Err(e) => Err(e),
    }
}

/// Layout of an unsigned two-byte number.
pub open spec fn u16_wire(n: u16) -> Seq<u8> {
    be_bytes(n as nat, 2)
}

/// Layout of a signed four-byte number.
pub open spec fn i32_wire(n: i32) -> Seq<u8> {
    be_bytes(unsigned(n as int, 4), 4)
}

/// Layout of a signed eight-byte number.
pub open spec fn i64_wire(n: i64) -> Seq<u8> {
    be_bytes(unsigned(n as int, 8), 8)
}

/// Layout of a text: the length of its UTF-8 form in two bytes, then that form.
/// A length that two bytes cannot hold is written modulo 65536.
pub open spec fn string_wire(text: Seq<char>) -> Seq<u8> {
    let b = encode_utf8(text);
    be_bytes(((b.len() as int) % 0x1_0000) as nat, 2) + b
}

/// Layout of a byte string: its length in four bytes, then the bytes.
/// A length that four bytes cannot hold is written modulo 2^32.
pub open spec fn cbytes_wire(b: Seq<u8>) -> Seq<u8> {
    be_bytes(((b.len() as int) % 0x1_0000_0000) as nat, 4) + b
}

/// The views of a sequence of texts.
pub open spec fn texts(v: Seq<String>) -> Seq<Seq<char>> {
    Seq::new(v.len(), |i: int| v[i]@)
}

pub proof fn lemma_parse_u16_wire(s: Seq<u8>, pos: int, n: u16)
    requires
        holds_at(s, pos, u16_wire(n)),
    ensures
        parse_u16(s, pos) == Ok::<(u16, int), ErrorView>((n, pos + 2)),
{
    lemma_pow256_values();
    lemma_be_bytes_len(n as nat, 2);
    lemma_be_nat_of_bytes(n as nat, 2);
}

pub proof fn lemma_parse_i32_wire(s: Seq<u8>, pos: int, n: i32)
    requires
        holds_at(s, pos, i32_wire(n)),
    ensures
        parse_i32(s, pos) == Ok::<(i32, int), ErrorView>((n, pos + 4)),
{
    lemma_pow256_values();
    lemma_signed_of_unsigned(n as int, 4);
    lemma_be_bytes_len(unsigned(n as int, 4), 4);
    lemma_be_nat_of_bytes(unsigned(n as int, 4), 4);
}

pub proof fn lemma_parse_i64_wire(s: Seq<u8>, pos: int, n: i64)
    requires
        holds_at(s, pos, i64_wire(n)),
    ensures
        parse_i64(s, pos) == Ok::<(i64, int), ErrorView>((n, pos + 8)),
{
    lemma_pow256_values();
    lemma_signed_of_unsigned(n as int, 8);
    lemma_be_bytes_len(unsigned(n as int, 8), 8);
    lemma_be_nat_of_bytes(unsigned(n as int, 8), 8);
}

/// A text whose UTF-8 form fits the two-byte length is read back as written.
pub proof fn lemma_parse_string_wire(s: Seq<u8>, pos: int, text: Seq<char>)
    requires
        holds_at(s, pos, string_wire(text)),
        encode_utf8(text).len() < 0x1_0000,
    ensures
        parse_string(s, pos) == Ok::<(Seq<char>, int), ErrorView>(
            (text, pos + string_wire(text).len()),
        ),
        string_wire(text).len() == 2 + encode_utf8(text).len(),
{
    let b = encode_utf8(text);
    let len = b.len() as u16;
    lemma_be_bytes_len(b.len() as nat, 2);
    lemma_holds_at_split(s, pos, u16_wire(len), b);
    lemma_parse_u16_wire(s, pos, len);
    encode_utf8_valid_utf8(text);
    encode_utf8_decode_utf8(text);
}

/// A byte string whose length fits the signed four-byte field is read back as written.
pub proof fn lemma_parse_cbytes_wire(s: Seq<u8>, pos: int, b: Seq<u8>)
    requires
        holds_at(s, pos, cbytes_wire(b)),
        b.len() < 0x8000_0000,
    ensures
        parse_cbytes(s, pos) == Ok::<(Seq<u8>, int), ErrorView>((b, pos + cbytes_wire(b).len())),
        cbytes_wire(b).len() == 4 + b.len(),
{
    let len = b.len() as i32;
    lemma_pow256_values();
    lemma_be_bytes_len(b.len() as nat, 4);
    lemma_holds_at_split(s, pos, i32_wire(len), b);
    lemma_parse_i32_wire(s, pos, len);
    if b.len() == 0 {
        assert(s.subrange(pos + 4, pos + 4) =~= b);
    }
}

/// Reads the `n` bytes from `pos` on.
pub fn read_bytes<'a>(bytes: &'a [u8], pos: usize, n: usize) -> (r: Result<
    (&'a [u8], usize),
    Error,
>)
    ensures
        match parse_bytes(bytes@, pos as int, n as int) {
            Ok((v, end)) => r matches Ok((x, e)) && x@ == v && e == end,
            Err(w) => r matches Err(e) && e@ == w,
        },
{
    if pos <= bytes.len() && n <= bytes.len() - pos {
        Ok((slice_subrange(bytes, pos, pos + n), pos + n))
    } else {
        Err(Error::UnexpectedEof)
    }
}

/// Reads one byte.
pub fn read_byte(bytes: &[u8], pos: usize) -> (r: Result<(u8, usize), Error>)
    ensures
        match parse_u8(bytes@, pos as int) {
            Ok((v, end)) => r matches Ok((x, e)) && x == v && e == end,
            Err(w) => r matches Err(e) && e@ == w,
        },
{
    let (b, end) = read_bytes(bytes, pos, 1)?;
    Ok((b[0], end))
}

/// Reads two bytes as an unsigned number.
pub fn read_short(bytes: &[u8], pos: usize) -> (r: Result<(u16, usize), Error>)
    ensures
        match parse_u16(bytes@, pos as int) {
            Ok((v, end)) => r matches Ok((x, e)) && x == v && e == end,
            Err(w) => r matches Err(e) && e@ == w,
        },
{
    let (b, end) = read_bytes(bytes, pos, 2)?;
    assert(b@.subrange(0, 2) =~= b@);
    Ok((read_u16(b), end))
}

/// Reads four bytes as an unsigned number.
pub fn read_length(bytes: &[u8], pos: usize) -> (r: Result<(u32, usize), Error>)
    ensures
        match parse_u32(bytes@, pos as int) {
            Ok((v, end)) => r matches Ok((x, e)) && x == v && e == end,
            Err(w) => r matches Err(e) && e@ == w,
        },
{
    let (b, end) = read_bytes(bytes, pos, 4)?;
    assert(b@.subrange(0, 4) =~= b@);
    Ok((read_u32(b), end))
}

/// Reads four bytes as a signed number.
pub fn read_int(bytes: &[u8], pos: usize) -> (r: Result<(i32, usize), Error>)
    ensures
        match parse_i32(bytes@, pos as int) {
            Ok((v, end)) => r matches Ok((x, e)) && x == v && e == end,
            Err(w) => r matches Err(e) && e@ == w,
        },
{
    let (b, end) = read_bytes(bytes, pos, 4)?;
    assert(b@.subrange(0, 4) =~= b@);
    Ok((read_i32(b), end))
}

/// Reads eight bytes as a signed number.
pub fn read_bigint(bytes: &[u8], pos: usize) -> (r: Result<(i64, usize), Error>)
    ensures
        match parse_i64(bytes@, pos as int) {
            Ok((v, end)) => r matches Ok((x, e)) && x == v && e == end,
            Err(w) => r matches Err(e) && e@ == w,
        },
{
    let (b, end) = read_bytes(bytes, pos, 8)?;
    assert(b@.subrange(0, 8) =~= b@);
    Ok((read_i64(b), end))
}

/// Calls `String::from_utf8`, which gives the text that the bytes encode where
/// they are UTF-8, and no text where they are not.
#[verifier::external_body]
fn text_of(bytes: Vec<u8>) -> (r: Option<String>)
    ensures
        r is Some <==> valid_utf8(bytes@),
        r matches Some(text) ==> text@ == decode_utf8(bytes@),
{
    String::from_utf8(bytes).ok()
}

/// Reads a text behind its two-byte length.
pub fn read_string(bytes: &[u8], pos: usize) -> (r: Result<(String, usize), Error>)
    ensures
        match parse_string(bytes@, pos as int) {
            Ok((v, end)) => r matches Ok((x, e)) && x@ == v && e == end,
            Err(w) => r matches Err(e) && e@ == w,
        },
{
    let (len, at) = read_short(bytes, pos)?;
    let (b, end) = read_bytes(bytes, at, len as usize)?;
    match text_of(slice_to_vec(b)) {
        Some(text) => Ok((text, end)),
        None => Err(Error::Utf8),
    }
}

/// Reads a byte string behind its signed four-byte length.
fn read_cbytes(bytes: &[u8], pos: usize) -> (r: Result<(Vec<u8>, usize), Error>)
    ensures
        match parse_cbytes(bytes@, pos as int) {
            Ok((v, end)) => r matches Ok((x, e)) && x@ == v && e == end,
            Err(w) => r matches Err(e) && e@ == w,
        },
{
    let (len, at) = read_int(bytes, pos)?;
    if len < 0 {
        return Ok((Vec::new(), at));
    }
    let (b, end) = read_bytes(bytes, at, len as usize)?;
    Ok((slice_to_vec(b), end))
}

/// A failure among the first texts is the failure of any longer run of them.
pub proof fn lemma_parse_strings_fails(s: Seq<u8>, pos: int, k: nat, n: nat)
    requires
        k <= n,
    ensures
        parse_strings(s, pos, k) is Err ==> parse_strings(s, pos, n) == parse_strings(s, pos, k),
    decreases n,
{
    if k < n {
        lemma_parse_strings_fails(s, pos, k, (n - 1) as nat);
    }
}

/// Reads a list of texts behind its two-byte count.
pub fn read_string_list(bytes: &[u8], pos: usize) -> (r: Result<(Vec<String>, usize), Error>)
    ensures
        match parse_string_list(bytes@, pos as int) {
            Ok((v, end)) => r matches Ok((x, e)) && texts(x@) == v && e == end,
            Err(w) => r matches Err(e) && e@ == w,
        },
        r matches Ok((_, e)) ==> e <= bytes@.len(),
{
    let (n, start) = read_short(bytes, pos)?;
    let mut out: Vec<String> = Vec::new();
    let mut at: usize = start;
    let mut i: u16 = 0;
    assert(texts(out@) =~= Seq::<Seq<char>>::empty());
    while i < n
        invariant
            i <= n,
            at <= bytes@.len(),
            parse_u16(bytes@, pos as int) == Ok::<(u16, int), ErrorView>((n, start as int)),
            parse_strings(bytes@, start as int, i as nat) == Ok::<
                (Seq<Seq<char>>, int),
                ErrorView,
            >((texts(out@), at as int)),
        decreases n - i,
    {
        match read_string(bytes, at) {
            Ok((text, end)) => {
                proof {
                    assert(texts(out@.push(text)) =~= texts(out@).push(text@));
                }
                out.push(text);
                at = end;
            },
            Err(e) => {
                proof {
                    lemma_parse_strings_fails(bytes@, start as int, (i + 1) as nat, n as nat);
                }
                return Err(e);
            },
        }
        i = i + 1;
    }
    Ok((out, at))
}

/// Writes a text behind the two-byte length of its UTF-8 form.
pub fn string_bytes(text: &str) -> (out: Vec<u8>)
    ensures
        out@ == string_wire(text@),
{
    let raw = text.as_bytes();
    let mut out = u16_bytes((raw.len() % 0x1_0000) as u16);
    out.extend_from_slice(raw);
    out
}

/// The number that a four-byte length field shows for a length of `len` bytes.
pub fn length_field(len: usize) -> (field: i32)
    ensures
        unsigned(field as int, 4) == (len as int) % 0x1_0000_0000,
        len < 0x8000_0000 ==> field == len,
{
    proof {
        lemma_pow256_values();
    }
    let low: u64 = (len as u64) % 0x1_0000_0000;
    if low >= 0x8000_0000 {
        (low as i64 - 0x1_0000_0000) as i32
    } else {
        low as i32
    }
}

/// Writes a byte string behind its four-byte length.
fn cbytes_bytes(b: &[u8]) -> (out: Vec<u8>)
    ensures
        out@ == cbytes_wire(b@),
{
    let mut out = i32_bytes(length_field(b.len()));
    out.extend_from_slice(b);
    out
}

} // verus!
