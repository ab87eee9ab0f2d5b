//! The block of parameters that a query is run with, and its layout on the wire.

use crate::consistency::{
    consistency_wire, lemma_parse_consistency_wire, parse_consistency, Consistency,
};
use crate::cursor::Cursor;
use crate::endian::{i32_bytes, i64_bytes, lemma_be_bytes_len, unsigned};
use crate::error::{Error, ErrorView};
use crate::query::query_flags::{
    bit_if, flags_bits, flags_of, flags_without, lemma_flags_of_bits, lemma_flags_without_bits,
    QueryFlags,
};
use crate::query::query_values::{
    lemma_parse_named_wire, lemma_parse_simple_wire, parse_values, values_wire, QueryValues,
    QueryValuesView,
};
use crate::types::{
    cbytes_wire, holds_at, i32_wire, i64_wire, lemma_holds_at_split, lemma_parse_cbytes_wire,
    lemma_parse_i32_wire, lemma_parse_i64_wire, parse_cbytes, parse_i32, parse_i64, parse_u8,
    read_bigint, read_byte, read_int, CBytes, Parsed,
};
use vstd::prelude::*;

verus! {

/// Parameters of a query.
#[derive(Debug, Clone, PartialEq, Eq)]
pub struct QueryParams {
    /// Consistency level of the query.
    pub consistency: Consistency,
    /// The flags that mirror which of the optional fields are given.
    pub flags: Vec<QueryFlags>,
    /// Whether the values carry names.
    pub with_names: Option<bool>,
    /// The values of the query.
    pub values: Option<QueryValues>,
    /// The number of rows in a page of the result.
    pub page_size: Option<i32>,
    /// The token by which the server goes on with a paged result.
    pub paging_state: Option<CBytes>,
    /// Consistency level of the serial phase of a conditional update.
    pub serial_consistency: Option<Consistency>,
    /// The timestamp of the query.
    pub timestamp: Option<i64>,
}

/// Mathematical content of [`QueryParams`].
pub struct QueryParamsView {
    pub consistency: Consistency,
    pub flags: Seq<QueryFlags>,
    pub with_names: Option<bool>,
    pub values: Option<QueryValuesView>,
    pub page_size: Option<i32>,
    pub paging_state: Option<Seq<u8>>,
    pub serial_consistency: Option<Consistency>,
    pub timestamp: Option<i64>,
}

impl View for QueryParams {
    type V = QueryParamsView;

    open spec fn view(&self) -> QueryParamsView {
        QueryParamsView {
            consistency: self.consistency,
            flags: self.flags@,
            with_names: self.with_names,
            values: match self.values {
                Some(v) => Some(v@),
                None => None,
            },
            page_size: self.page_size,
            paging_state: match self.paging_state {
                Some(b) => Some(b@),
                None => None,
            },
            serial_consistency: self.serial_consistency,
            timestamp: self.timestamp,
        }
    }
}

impl QueryParamsView {
    /// Parameters with consistency `One` and nothing else.
    pub open spec fn initial() -> QueryParamsView {
        QueryParamsView {
            consistency: Consistency::One,
            flags: Seq::empty(),
            with_names: None,
            values: None,
            page_size: None,
            paging_state: None,
            serial_consistency: None,
            timestamp: None,
        }
    }

    /// The values carry names.
    pub open spec fn named(self) -> bool {
        self.values matches Some(QueryValuesView::NamedValues(_))
    }

    /// The flag bits that the given fields call for: the bitwise or of the bit of
    /// each optional field that is given, and of the bit for names where the values
    /// carry names.
    pub open spec fn implied_bits(self) -> u8 {
        bit_if(self.values is Some, QueryFlags::Value) | bit_if(
            self.named(),
            QueryFlags::WithNamesForValues,
        ) | bit_if(self.page_size is Some, QueryFlags::PageSize) | bit_if(
            self.paging_state is Some,
            QueryFlags::WithPagingState,
        ) | bit_if(self.serial_consistency is Some, QueryFlags::WithSerialConsistency) | bit_if(
            self.timestamp is Some,
            QueryFlags::WithDefaultTimestamp,
        )
    }

    /// The bit of the one flag that governs no field, where the stored flags hold
    /// that flag.
    pub open spec fn skip_bit(self) -> u8 {
        flags_bits(self.flags) & 0x02
    }

    /// The flag byte on the wire: the bits that the given fields call for, and the
    /// bit of the flag that governs no field where the stored flags hold it.
    pub open spec fn wire_bits(self) -> u8 {
        self.implied_bits() | self.skip_bit()
    }

    /// The flags mirror the fields: apart from the flag that governs no field, the
    /// byte of the flag list is the byte that the given fields call for, with no
    /// bit more and no bit less.
    pub open spec fn consistent(self) -> bool {
        flags_bits(self.flags) & 0x7d == self.implied_bits()
    }

    /// The parameters have a form on the wire that is read back as the same
    /// parameters: the values are well formed, and the paging state fits its
    /// signed four-byte length.
    pub open spec fn valid(self) -> bool {
        &&& match self.values {
            Some(v) => v.wf(),
            None => true,
        }
        &&& match self.paging_state {
            Some(b) => b.len() < 0x8000_0000,
            None => true,
        }
    }

    /// What a reader of the wire form sees: the same fields, the flags of the flag
    /// byte in the order of their bits, and `with_names` after the shape of the
    /// values.
    pub open spec fn as_read(self) -> QueryParamsView {
        QueryParamsView {
            flags: flags_of(self.wire_bits()),
            with_names: Some(self.named()),
            ..self
        }
    }

    /// Both have the same consistency and the same optional fields with the same
    /// contents, the values in the same shape.
    pub open spec fn same_fields(self, other: QueryParamsView) -> bool {
        &&& self.consistency == other.consistency
        &&& self.values == other.values
        &&& self.page_size == other.page_size
        &&& self.paging_state == other.paging_state
        &&& self.serial_consistency == other.serial_consistency
        &&& self.timestamp == other.timestamp
    }
}

/// The flags of parameters that take new values: the value flag is added, the
/// flag for names is added where the values carry names and removed where they
/// do not.
pub open spec fn flags_with_values(flags: Seq<QueryFlags>, named: bool) -> Seq<QueryFlags> {
    if named {
        flags.push(QueryFlags::Value).push(QueryFlags::WithNamesForValues)
    } else {
        flags_without(flags, QueryFlags::WithNamesForValues).push(QueryFlags::Value)
    }
}

/// Layout of the values section: the count in one byte, then the values. A count
/// that one byte cannot hold is written modulo 256.
pub open spec fn values_section_wire(values: Option<QueryValuesView>) -> Seq<u8> {
    match values {
        Some(v) => seq![(v.len() % 256) as u8] + values_wire(v),
        None => Seq::empty(),
    }
}

/// Layout of the page size section.
pub open spec fn page_size_section_wire(page_size: Option<i32>) -> Seq<u8> {
    match page_size {
        Some(n) => i32_wire(n),
        None => Seq::empty(),
    }
}

/// Layout of the paging state section.
pub open spec fn paging_state_section_wire(paging_state: Option<Seq<u8>>) -> Seq<u8> {
    match paging_state {
        Some(b) => cbytes_wire(b),
        None => Seq::empty(),
    }
}

/// Layout of the serial consistency section.
pub open spec fn serial_section_wire(serial: Option<Consistency>) -> Seq<u8> {
    match serial {
        Some(c) => consistency_wire(c),
        None => Seq::empty(),
    }
}

/// Layout of the timestamp section.
pub open spec fn timestamp_section_wire(timestamp: Option<i64>) -> Seq<u8> {
    match timestamp {
        Some(t) => i64_wire(t),
        None => Seq::empty(),
    }
}

/// Layout of the optional fields that are given, in this order: values, page size,
/// paging state, serial consistency, timestamp. A field that is not given takes no
/// room.
pub open spec fn sections_wire(p: QueryParamsView) -> Seq<u8> {
    values_section_wire(p.values) + page_size_section_wire(p.page_size)
        + paging_state_section_wire(p.paging_state) + serial_section_wire(p.serial_consistency)
        + timestamp_section_wire(p.timestamp)
}

/// Layout of the parameters: consistency, flag byte, then each optional field that
/// is given, in this order: values, page size, paging state, serial consistency,
/// timestamp. The flag byte raises the bits that the given fields call for, and
/// the bit of the flag that governs no field where the stored flags hold it.
pub open spec fn query_params_wire(p: QueryParamsView) -> Seq<u8> {
    consistency_wire(p.consistency) + seq![p.wire_bits()] + sections_wire(p)
}

/// The values section at `pos`, which is there where `byte` raises the value flag.
pub open spec fn parse_values_section(s: Seq<u8>, pos: int, byte: u8) -> Parsed<
    Option<QueryValuesView>,
> {
    if QueryFlags::Value.is_set(byte) {
        match parse_u8(s, pos) {
            Ok((n, at)) => match parse_values(
                s,
                at,
                n as nat,
                QueryFlags::WithNamesForValues.is_set(byte),
            ) {
                Ok((v, end)) => Ok((Some(v), end)),
                Err(e) => Err(e),
            },
            Err(e) => Err(e),
        }
    } else {
        Ok((None, pos))
    }
}

/// The page size at `pos`, which is there where `byte` raises its flag.
pub open spec fn parse_page_size_section(s: Seq<u8>, pos: int, byte: u8) -> Parsed<Option<i32>> {
    if QueryFlags::PageSize.is_set(byte) {
        match parse_i32(s, pos) {
            Ok((n, end)) => Ok((Some(n), end)),
            Err(e) => Err(e),
        }
    } else {
        Ok((None, pos))
    }
}

/// The paging state at `pos`, which is there where `byte` raises its flag.
pub open spec fn parse_paging_state_section(s: Seq<u8>, pos: int, byte: u8) -> Parsed<
    Option<Seq<u8>>,
> {
    if QueryFlags::WithPagingState.is_set(byte) {
        match parse_cbytes(s, pos) {
            Ok((b, end)) => Ok((Some(b), end)),
            Err(e) => Err(e),
        }
    } else {
        Ok((None, pos))
    }
}

/// The serial consistency at `pos`, which is there where `byte` raises its flag.
pub open spec fn parse_serial_section(s: Seq<u8>, pos: int, byte: u8) -> Parsed<
    Option<Consistency>,
> {
    if QueryFlags::WithSerialConsistency.is_set(byte) {
        match parse_consistency(s, pos) {
            Ok((c, end)) => Ok((Some(c), end)),
            Err(e) => Err(e),
        }
    } else {
        Ok((None, pos))
    }
}

/// The timestamp at `pos`, which is there where `byte` raises its flag.
pub open spec fn parse_timestamp_section(s: Seq<u8>, pos: int, byte: u8) -> Parsed<Option<i64>> {
    if QueryFlags::WithDefaultTimestamp.is_set(byte) {
        match parse_i64(s, pos) {
            Ok((t, end)) => Ok((Some(t), end)),
            Err(e) => Err(e),
        }
    } else {
        Ok((None, pos))
    }
}

/// The optional sections from `pos` on, as `byte` announces them.
pub open spec fn parse_sections(s: Seq<u8>, pos: int, consistency: Consistency, byte: u8) -> Parsed<
    QueryParamsView,
> {
    match parse_values_section(s, pos, byte) {
        Ok((values, at1)) => match parse_page_size_section(s, at1, byte) {
            Ok((page_size, at2)) => match parse_paging_state_section(s, at2, byte) {
                Ok((paging_state, at3)) => match parse_serial_section(s, at3, byte) {
                    Ok((serial_consistency, at4)) => match parse_timestamp_section(s, at4, byte) {
                        Ok((timestamp, end)) => Ok(
                            (
                                QueryParamsView {
                                    consistency,
                                    flags: flags_of(byte),
                                    with_names: Some(QueryFlags::WithNamesForValues.is_set(byte)),
                                    values,
                                    page_size,
                                    paging_state,
                                    serial_consistency,
                                    timestamp,
                                },
                                end,
                            ),
                        ),
                        Err(e) => Err(e),
                    },
                    Err(e) => Err(e),
                },
                Err(e) => Err(e),
            },
            Err(e) => Err(e),
        },
        Err(e) => Err(e),
    }
}

/// The parameters at `pos`: consistency, flag byte, then the optional sections that
/// the flag byte announces. `with_names` records the flag for names whether or not
/// values are there, and `flags` lists the flags that the byte raises.
pub open spec fn parse_query_params(s: Seq<u8>, pos: int) -> Parsed<QueryParamsView> {
    match parse_consistency(s, pos) {
        Ok((consistency, at1)) => match parse_u8(s, at1) {
            Ok((byte, at2)) => parse_sections(s, at2, consistency, byte),
            Err(e) => Err(e),
        },
        Err(e) => Err(e),
    }
}

/// Of six bytes that each hold one flag bit or none, the bitwise or raises a flag
/// exactly where its byte holds it.
proof fn lemma_or_of_bits(v: u8, n: u8, p: u8, g: u8, c: u8, t: u8)
    by (bit_vector)
    requires
        v == 0 || v == 0x01,
        n == 0 || n == 0x40,
        p == 0 || p == 0x04,
        g == 0 || g == 0x08,
        c == 0 || c == 0x10,
        t == 0 || t == 0x20,
    ensures
        ((v | n | p | g | c | t) & 0x01 != 0) == (v != 0),
        ((v | n | p | g | c | t) & 0x40 != 0) == (n != 0),
        ((v | n | p | g | c | t) & 0x04 != 0) == (p != 0),
        ((v | n | p | g | c | t) & 0x08 != 0) == (g != 0),
        ((v | n | p | g | c | t) & 0x10 != 0) == (c != 0),
        ((v | n | p | g | c | t) & 0x20 != 0) == (t != 0),
        (v | n | p | g | c | t) & 0x02 == 0,
        (v | n | p | g | c | t) & 0x7f == (v | n | p | g | c | t),
        (v | n | p | g | c | t) | 0x01 == (0x01u8 | n | p | g | c | t),
        (v | n | p | g | c | t) | 0x40 == (v | 0x40 | p | g | c | t),
        (v | n | p | g | c | t) | 0x04 == (v | n | 0x04 | g | c | t),
        (v | n | p | g | c | t) | 0x08 == (v | n | p | 0x08 | c | t),
        (v | n | p | g | c | t) | 0x10 == (v | n | p | g | 0x10 | t),
        (v | n | p | g | c | t) | 0x20 == (v | n | p | g | c | 0x20),
        (v | n | p | g | c | t) & !0x40u8 == (v | 0u8 | p | g | c | t),
        ((v | n | p | g | c | t) & !0x40u8) | 0x01 == (0x01u8 | 0u8 | p | g | c | t),
        ((v | n | p | g | c | t) | 0x01) | 0x40 == (0x01u8 | 0x40u8 | p | g | c | t),
        v == 0 && n == 0 && p == 0 && g == 0 && c == 0 && t == 0 ==> (v | n | p | g | c | t) == 0,
{
}

/// Setting or clearing a bit of a field leaves the bit of the flag that governs no
/// field out of the count in the same way before and after.
proof fn lemma_masked(x: u8)
    by (bit_vector)
    ensures
        (x | 0x01) & 0x7d == (x & 0x7d) | 0x01,
        (x | 0x04) & 0x7d == (x & 0x7d) | 0x04,
        (x | 0x08) & 0x7d == (x & 0x7d) | 0x08,
        (x | 0x10) & 0x7d == (x & 0x7d) | 0x10,
        (x | 0x20) & 0x7d == (x & 0x7d) | 0x20,
        ((x & !0x40u8) | 0x01) & 0x7d == ((x & 0x7d) & !0x40u8) | 0x01,
        ((x | 0x01) | 0x40) & 0x7d == ((x & 0x7d) | 0x01) | 0x40,
{
}

/// Adding the bit of the flag that governs no field to a byte of field bits changes
/// no other bit.
proof fn lemma_skip_bit(i: u8, x: u8)
    by (bit_vector)
    requires
        i & 0x02 == 0,
        i & 0x7f == i,
    ensures
        (i | (x & 0x02)) & 0x7f == (i | (x & 0x02)),
        (i | (x & 0x02)) & 0x7d == i,
        ((i | (x & 0x02)) & 0x01 != 0) == (i & 0x01 != 0),
        ((i | (x & 0x02)) & 0x04 != 0) == (i & 0x04 != 0),
        ((i | (x & 0x02)) & 0x08 != 0) == (i & 0x08 != 0),
        ((i | (x & 0x02)) & 0x10 != 0) == (i & 0x10 != 0),
        ((i | (x & 0x02)) & 0x20 != 0) == (i & 0x20 != 0),
        ((i | (x & 0x02)) & 0x40 != 0) == (i & 0x40 != 0),
        ((i | (x & 0x02)) & 0x02 != 0) == (x & 0x02 != 0),
{
}

impl QueryParamsView {
    /// The flag byte on the wire raises the flag of each optional field exactly
    /// where that field is given, the flag for names exactly where the values carry
    /// names, and the flag that governs no field exactly where the stored flags
    /// hold it. Apart from that last flag it is the byte that the fields call for,
    /// and the list of its flags gives the byte back.
    pub proof fn lemma_wire_bits(self)
        ensures
            QueryFlags::Value.is_set(self.wire_bits()) == (self.values is Some),
            QueryFlags::WithNamesForValues.is_set(self.wire_bits()) == self.named(),
            QueryFlags::PageSize.is_set(self.wire_bits()) == (self.page_size is Some),
            QueryFlags::WithPagingState.is_set(self.wire_bits()) == (self.paging_state is Some),
            QueryFlags::WithSerialConsistency.is_set(self.wire_bits()) == (
            self.serial_consistency is Some),
            QueryFlags::WithDefaultTimestamp.is_set(self.wire_bits()) == (self.timestamp is Some),
            QueryFlags::SkipMetadata.is_set(self.wire_bits()) == QueryFlags::SkipMetadata.is_set(
                flags_bits(self.flags),
            ),
            self.wire_bits() & 0x7d == self.implied_bits(),
            flags_bits(flags_of(self.wire_bits())) == self.wire_bits(),
    {
        lemma_or_of_bits(
            bit_if(self.values is Some, QueryFlags::Value),
            bit_if(self.named(), QueryFlags::WithNamesForValues),
            bit_if(self.page_size is Some, QueryFlags::PageSize),
            bit_if(self.paging_state is Some, QueryFlags::WithPagingState),
            bit_if(self.serial_consistency is Some, QueryFlags::WithSerialConsistency),
            bit_if(self.timestamp is Some, QueryFlags::WithDefaultTimestamp),
        );
        lemma_skip_bit(self.implied_bits(), flags_bits(self.flags));
        lemma_flags_of_bits(self.wire_bits());
    }

    /// Parameters with nothing but a consistency have flags that mirror their fields.
    pub proof fn lemma_initial_consistent()
        ensures
            QueryParamsView::initial().consistent(),
    {
        lemma_or_of_bits(0, 0, 0, 0, 0, 0);
        assert(0u8 & 0x7d == 0u8) by (bit_vector);
    }
}

impl QueryParamsView {
    /// The parameters after they took the values `v`.
    pub open spec fn with_values(self, v: QueryValuesView) -> QueryParamsView {
        QueryParamsView {
            values: Some(v),
            with_names: Some(v.with_names()),
            flags: flags_with_values(self.flags, v.with_names()),
            ..self
        }
    }

    /// The parameters after `with_names` was set to `named`. The flags stay as
    /// they are: the flag for names goes by the shape of the values.
    pub open spec fn with_names_set(self, named: bool) -> QueryParamsView {
        QueryParamsView { with_names: Some(named), ..self }
    }

    /// The parameters after the flags `flags` were asked for. Of the flags asked
    /// for, the one that governs no field is taken over; the flag of every field
    /// goes by whether the field is given.
    pub open spec fn with_flags(self, flags: Seq<QueryFlags>) -> QueryParamsView {
        QueryParamsView {
            flags: flags_of(self.implied_bits() | (flags_bits(flags) & 0x02)),
            ..self
        }
    }

    /// Whatever flags are asked for, the flags mirror the fields afterwards, and
    /// the flag that governs no field is held exactly where it was asked for.
    pub proof fn lemma_with_flags_consistent(self, flags: Seq<QueryFlags>)
        ensures
            self.with_flags(flags).consistent(),
            QueryFlags::SkipMetadata.is_set(flags_bits(self.with_flags(flags).flags))
                == QueryFlags::SkipMetadata.is_set(flags_bits(flags)),
    {
        lemma_or_of_bits(
            bit_if(self.values is Some, QueryFlags::Value),
            bit_if(self.named(), QueryFlags::WithNamesForValues),
            bit_if(self.page_size is Some, QueryFlags::PageSize),
            bit_if(self.paging_state is Some, QueryFlags::WithPagingState),
            bit_if(self.serial_consistency is Some, QueryFlags::WithSerialConsistency),
            bit_if(self.timestamp is Some, QueryFlags::WithDefaultTimestamp),
        );
        lemma_skip_bit(self.implied_bits(), flags_bits(flags));
        lemma_flags_of_bits(self.implied_bits() | (flags_bits(flags) & 0x02));
    }

    /// The parameters after they took the page size `size`.
    pub open spec fn with_page_size(self, size: i32) -> QueryParamsView {
        QueryParamsView {
            page_size: Some(size),
            flags: self.flags.push(QueryFlags::PageSize),
            ..self
        }
    }

    /// The parameters after they took the paging state `state`.
    pub open spec fn with_paging_state(self, state: Seq<u8>) -> QueryParamsView {
        QueryParamsView {
            paging_state: Some(state),
            flags: self.flags.push(QueryFlags::WithPagingState),
            ..self
        }
    }

    /// The parameters after they took the serial consistency `level`.
    pub open spec fn with_serial_consistency(self, level: Consistency) -> QueryParamsView {
        QueryParamsView {
            serial_consistency: Some(level),
            flags: self.flags.push(QueryFlags::WithSerialConsistency),
            ..self
        }
    }

    /// The parameters after they took the timestamp `timestamp`.
    pub open spec fn with_timestamp(self, timestamp: i64) -> QueryParamsView {
        QueryParamsView {
            timestamp: Some(timestamp),
            flags: self.flags.push(QueryFlags::WithDefaultTimestamp),
            ..self
        }
    }

    /// Flags that mirror the fields go on mirroring them when an optional field is
    /// set in one of the six ways above.
    pub proof fn lemma_setters_keep_consistent(self)
        requires
            self.consistent(),
        ensures
            forall|v: QueryValuesView| (#[trigger] self.with_values(v)).consistent(),
            forall|named: bool| (#[trigger] self.with_names_set(named)).consistent(),
            forall|size: i32| (#[trigger] self.with_page_size(size)).consistent(),
            forall|state: Seq<u8>| (#[trigger] self.with_paging_state(state)).consistent(),
            forall|level: Consistency| (#[trigger] self.with_serial_consistency(level)).consistent(),
            forall|timestamp: i64| (#[trigger] self.with_timestamp(timestamp)).consistent(),
    {
        lemma_or_of_bits(
            bit_if(self.values is Some, QueryFlags::Value),
            bit_if(self.named(), QueryFlags::WithNamesForValues),
            bit_if(self.page_size is Some, QueryFlags::PageSize),
            bit_if(self.paging_state is Some, QueryFlags::WithPagingState),
            bit_if(self.serial_consistency is Some, QueryFlags::WithSerialConsistency),
            bit_if(self.timestamp is Some, QueryFlags::WithDefaultTimestamp),
        );
        lemma_flags_without_bits(self.flags, QueryFlags::WithNamesForValues);
        lemma_masked(flags_bits(self.flags));
        let f = self.flags;
        let quiet = flags_without(f, QueryFlags::WithNamesForValues);
        assert(f.push(QueryFlags::Value).drop_last() =~= f);
        assert(f.push(QueryFlags::Value).push(QueryFlags::WithNamesForValues).drop_last()
            =~= f.push(QueryFlags::Value));
        assert(quiet.push(QueryFlags::Value).drop_last() =~= quiet);
        assert(f.push(QueryFlags::PageSize).drop_last() =~= f);
        assert(f.push(QueryFlags::WithPagingState).drop_last() =~= f);
        assert(f.push(QueryFlags::WithSerialConsistency).drop_last() =~= f);
        assert(f.push(QueryFlags::WithDefaultTimestamp).drop_last() =~= f);
        assert forall|v: QueryValuesView| (#[trigger] self.with_values(v)).consistent() by {
            let after = self.with_values(v);
            if v.with_names() {
                assert(flags_bits(f.push(QueryFlags::Value)) == flags_bits(f) | 0x01);
                assert(flags_bits(after.flags) == (flags_bits(f) | 0x01) | 0x40);
            } else {
                assert(flags_bits(after.flags) == (flags_bits(f) & !0x40u8) | 0x01);
            }
        }
    }

    /// Valid parameters are read back from their wire form with the same fields:
    /// what is read is the parameters themselves, with the flags of the flag byte
    /// in the order of their bits and `with_names` after the shape of the values.
    pub proof fn lemma_round_trip(self, s: Seq<u8>, pos: int)
        requires
            self.valid(),
            holds_at(s, pos, query_params_wire(self)),
        ensures
            parse_query_params(s, pos) == Ok::<(QueryParamsView, int), ErrorView>(
                (self.as_read(), pos + query_params_wire(self).len()),
            ),
            self.same_fields(self.as_read()),
            flags_bits(self.as_read().flags) == self.wire_bits(),
            self.as_read().consistent(),
    {
        let byte = self.wire_bits();
        self.lemma_wire_bits();
        let w0 = consistency_wire(self.consistency);
        let w1 = seq![byte];
        lemma_holds_at_split(s, pos, w0 + w1, sections_wire(self));
        lemma_holds_at_split(s, pos, w0, w1);
        lemma_be_bytes_len(self.consistency.code() as nat, 2);
        lemma_parse_consistency_wire(s, pos, self.consistency);
        assert(s.subrange(pos + 2, pos + 3)[0] == byte);
        lemma_sections(self, s, pos + 3);
    }
}

/// The optional fields of valid parameters are read back as written, under the
/// flag byte of their wire form.
proof fn lemma_sections(p: QueryParamsView, s: Seq<u8>, pos: int)
    requires
        p.valid(),
        holds_at(s, pos, sections_wire(p)),
    ensures
        parse_sections(s, pos, p.consistency, p.wire_bits()) == Ok::<
            (QueryParamsView, int),
            ErrorView,
        >((p.as_read(), pos + sections_wire(p).len())),
{
    let byte = p.wire_bits();
    p.lemma_wire_bits();
    let w2 = values_section_wire(p.values);
    let w3 = page_size_section_wire(p.page_size);
    let w4 = paging_state_section_wire(p.paging_state);
    let w5 = serial_section_wire(p.serial_consistency);
    let w6 = timestamp_section_wire(p.timestamp);
    lemma_holds_at_split(s, pos, w2 + w3 + w4 + w5, w6);
    lemma_holds_at_split(s, pos, w2 + w3 + w4, w5);
    lemma_holds_at_split(s, pos, w2 + w3, w4);
    lemma_holds_at_split(s, pos, w2, w3);
    let at3 = pos + w2.len();
    let at4 = at3 + w3.len();
    let at5 = at4 + w4.len();
    let at6 = at5 + w5.len();
    assert(parse_values_section(s, pos, byte) == Ok::<(Option<QueryValuesView>, int), ErrorView>(
        (p.values, at3),
    )) by {
        lemma_values_section(s, pos, p.values, byte);
    }
    assert(parse_page_size_section(s, at3, byte) == Ok::<(Option<i32>, int), ErrorView>(
        (p.page_size, at4),
    )) by {
        if let Some(n) = p.page_size {
            lemma_be_bytes_len(unsigned(n as int, 4), 4);
            lemma_parse_i32_wire(s, at3, n);
        }
    }
    assert(parse_paging_state_section(s, at4, byte) == Ok::<(Option<Seq<u8>>, int), ErrorView>(
        (p.paging_state, at5),
    )) by {
        if let Some(b) = p.paging_state {
            lemma_parse_cbytes_wire(s, at4, b);
        }
    }
    assert(parse_serial_section(s, at5, byte) == Ok::<(Option<Consistency>, int), ErrorView>(
        (p.serial_consistency, at6),
    )) by {
        if let Some(c) = p.serial_consistency {
            lemma_be_bytes_len(c.code() as nat, 2);
            lemma_parse_consistency_wire(s, at5, c);
        }
    }
    assert(parse_timestamp_section(s, at6, byte) == Ok::<(Option<i64>, int), ErrorView>(
        (p.timestamp, at6 + w6.len()),
    )) by {
        if let Some(t) = p.timestamp {
            lemma_be_bytes_len(unsigned(t as int, 8), 8);
            lemma_parse_i64_wire(s, at6, t);
        }
    }
}

/// Well-formed values behind their count are read back as written, with names
/// where the flag byte announces them.
proof fn lemma_values_section(s: Seq<u8>, pos: int, values: Option<QueryValuesView>, byte: u8)
    requires
        holds_at(s, pos, values_section_wire(values)),
        QueryFlags::Value.is_set(byte) == (values is Some),
        values matches Some(v) ==> v.wf() && v.with_names()
            == QueryFlags::WithNamesForValues.is_set(byte),
    ensures
        parse_values_section(s, pos, byte) == Ok::<(Option<QueryValuesView>, int), ErrorView>(
            (values, pos + values_section_wire(values).len()),
        ),
{
    if let Some(v) = values {
        let count = seq![(v.len() % 256) as u8];
        lemma_holds_at_split(s, pos, count, values_wire(v));
        assert(s.subrange(pos, pos + 1)[0] == count[0]);
        match v {
            QueryValuesView::SimpleValues(list) => {
                lemma_parse_simple_wire(s, pos + 1, list);
            },
            QueryValuesView::NamedValues(list) => {
                lemma_parse_named_wire(s, pos + 1, list);
            },
        }
    }
}

/// The list of `flags` without `flag`.
fn without_flag(flags: &Vec<QueryFlags>, flag: QueryFlags) -> (out: Vec<QueryFlags>)
    ensures
        out@ == flags_without(flags@, flag),
{
    let mut out: Vec<QueryFlags> = Vec::new();
    let mut i: usize = 0;
    while i < flags.len()
        invariant
            i <= flags.len(),
            out@ == flags_without(flags@.take(i as int), flag),
        decreases flags.len() - i,
    {
        proof {
            assert(flags@.take(i + 1).drop_last() =~= flags@.take(i as int));
        }
        if flags[i] != flag {
            out.push(flags[i]);
        }
        i = i + 1;
    }
    proof {
        assert(flags@.take(i as int) =~= flags@);
    }
    out
}

/// The flags of parameters that take new values, with names or without.
pub(crate) fn flags_for_values(flags: Vec<QueryFlags>, named: bool) -> (out: Vec<QueryFlags>)
    ensures
        out@ == flags_with_values(flags@, named),
{
    if named {
        let mut out = flags;
        out.push(QueryFlags::Value);
        out.push(QueryFlags::WithNamesForValues);
        out
    } else {
        let mut out = without_flag(&flags, QueryFlags::WithNamesForValues);
        out.push(QueryFlags::Value);
        out
    }
}

/// The byte in which exactly the flags of the list are raised.
pub(crate) fn flags_byte(flags: &Vec<QueryFlags>) -> (byte: u8)
    ensures
        byte == flags_bits(flags@),
{
    let mut byte: u8 = 0;
    let mut i: usize = 0;
    while i < flags.len()
        invariant
            i <= flags.len(),
            byte == flags_bits(flags@.take(i as int)),
        decreases flags.len() - i,
    {
        proof {
            assert(flags@.take(i + 1).drop_last() =~= flags@.take(i as int));
        }
        byte = byte | flags[i].as_byte();
        i = i + 1;
    }
    proof {
        assert(flags@.take(i as int) =~= flags@);
    }
    byte
}

impl QueryParams {
    /// Sets the values of the query, and with them `with_names` and the flags
    /// that mirror both.
    pub fn set_values(&mut self, values: QueryValues)
        ensures
            final(self)@ == old(self)@.with_values(values@),
            old(self)@.consistent() ==> final(self)@.consistent(),
    {
        proof {
            if self@.consistent() {
                self@.lemma_setters_keep_consistent();
            }
        }
        let named = values.with_names();
        let mut flags: Vec<QueryFlags> = Vec::new();
        std::mem::swap(&mut flags, &mut self.flags);
        self.flags = flags_for_values(flags, named);
        self.with_names = Some(named);
        self.values = Some(values);
    }

    /// The byte in which exactly the flags of the list are raised.
    pub fn flags_as_byte(&self) -> (byte: u8)
        ensures
            byte == flags_bits(self@.flags),
    {
        flags_byte(&self.flags)
    }

    /// The flags that are raised in `byte`, each once, in the order of their bits.
    pub fn parse_query_flags(byte: u8) -> (flags: Vec<QueryFlags>)
        ensures
            flags@ == flags_of(byte),
    {
        let mut flags: Vec<QueryFlags> = Vec::new();
        assert(flags@ =~= Seq::<QueryFlags>::empty());
        if QueryFlags::has_value(byte) {
            flags.push(QueryFlags::Value);
            assert(flags@ =~= seq![QueryFlags::Value]);
        }
        if QueryFlags::has_skip_metadata(byte) {
            flags.push(QueryFlags::SkipMetadata);
        }
        if QueryFlags::has_page_size(byte) {
            flags.push(QueryFlags::PageSize);
        }
        if QueryFlags::has_with_paging_state(byte) {
            flags.push(QueryFlags::WithPagingState);
        }
        if QueryFlags::has_with_serial_consistency(byte) {
            flags.push(QueryFlags::WithSerialConsistency);
        }
        if QueryFlags::has_with_default_timestamp(byte) {
            flags.push(QueryFlags::WithDefaultTimestamp);
        }
        if QueryFlags::has_with_names_for_values(byte) {
            flags.push(QueryFlags::WithNamesForValues);
        }
        flags
    }

    /// The flag bits that the given fields call for.
    pub fn implied_byte(&self) -> (byte: u8)
        ensures
            byte == self@.implied_bits(),
    {
        let v: u8 = if self.values.is_some() {
            0x01
        } else {
            0
        };
        let n: u8 = match &self.values {
            Some(QueryValues::NamedValues(_)) => 0x40,
            _ => 0,
        };
        let p: u8 = if self.page_size.is_some() {
            0x04
        } else {
            0
        };
        let g: u8 = if self.paging_state.is_some() {
            0x08
        } else {
            0
        };
        let c: u8 = if self.serial_consistency.is_some() {
            0x10
        } else {
            0
        };
        let t: u8 = if self.timestamp.is_some() {
            0x20
        } else {
            0
        };
        v | n | p | g | c | t
    }

    /// The flag byte on the wire: the bits that the given fields call for, and the
    /// bit of the flag that governs no field where the stored flags hold it.
    pub fn wire_byte(&self) -> (byte: u8)
        ensures
            byte == self@.wire_bits(),
            byte & 0x7d == self@.implied_bits(),
    {
        proof {
            self@.lemma_wire_bits();
        }
        self.implied_byte() | (self.flags_as_byte() & 0x02)
    }

    /// The bytes of the values section.
    fn values_section_bytes(&self) -> (out: Vec<u8>)
        ensures
            out@ == values_section_wire(self@.values),
    {
        match &self.values {
            Some(values) => {
                let mut out: Vec<u8> = Vec::new();
                out.push((values.len() % 256) as u8);
                let body = values.into_cbytes();
                out.extend_from_slice(body.as_slice());
                assert(out@ =~= seq![(values@.len() % 256) as u8] + values_wire(values@));
                out
            },
            None => Vec::new(),
        }
    }

    /// The bytes of the optional fields that are given.
    fn sections_bytes(&self) -> (out: Vec<u8>)
        ensures
            out@ == sections_wire(self@),
    {
        let mut out = self.values_section_bytes();
        match self.page_size {
            Some(size) => {
                let body = i32_bytes(size);
                out.extend_from_slice(body.as_slice());
            },
            None => {
                assert(out@ =~= out@ + Seq::<u8>::empty());
            },
        }
        match &self.paging_state {
            Some(state) => {
                let body = state.into_cbytes();
                out.extend_from_slice(body.as_slice());
            },
            None => {
                assert(out@ =~= out@ + Seq::<u8>::empty());
            },
        }
        match &self.serial_consistency {
            Some(level) => {
                let body = level.into_cbytes();
                out.extend_from_slice(body.as_slice());
            },
            None => {
                assert(out@ =~= out@ + Seq::<u8>::empty());
            },
        }
        match self.timestamp {
            Some(timestamp) => {
                let body = i64_bytes(timestamp);
                out.extend_from_slice(body.as_slice());
            },
            None => {
                assert(out@ =~= out@ + Seq::<u8>::empty());
            },
        }
        out
    }

    /// The bytes of the parameters on the wire. The bit of every optional field
    /// in the flag byte is worked out from whether the field is given, and the
    /// bit for names from the shape of the values; of the stored flags only the one
    /// that governs no field is consulted.
    pub fn into_cbytes(&self) -> (out: Vec<u8>)
        ensures
            out@ == query_params_wire(self@),
            out@.len() >= 3,
            out@[2] == self@.wire_bits(),
            out@[2] & 0x7d == self@.implied_bits(),
    {
        proof {
            lemma_be_bytes_len(self@.consistency.code() as nat, 2);
        }
        let mut out = self.consistency.into_cbytes();
        let ghost head = out@;
        out.push(self.wire_byte());
        assert(out@ =~= head + seq![self@.wire_bits()]);
        let sections = self.sections_bytes();
        out.extend_from_slice(sections.as_slice());
        out
    }

    /// Reads the values section at `pos`, which is there where `byte` raises the
    /// value flag.
    fn read_values_section(bytes: &[u8], pos: usize, byte: u8) -> (r: Result<
        (Option<QueryValues>, usize),
        Error,
    >)
        ensures
            match parse_values_section(bytes@, pos as int, byte) {
                Ok((v, end)) => r matches Ok((x, e)) && e == end && match x {
                    Some(values) => v == Some(values@),
                    None => v is None,
                },
                Err(w) => r matches Err(e) && e@ == w,
            },
            r matches Ok((_, e)) ==> e == pos || e <= bytes@.len(),
    {
        if QueryFlags::has_value(byte) {
            let (n, at) = read_byte(bytes, pos)?;
            let named = QueryFlags::has_with_names_for_values(byte);
            let (values, end) = QueryValues::decode(bytes, at, n, named)?;
            Ok((Some(values), end))
        } else {
            Ok((None, pos))
        }
    }

    /// Reads the page size at `pos`, which is there where `byte` raises its flag.
    fn read_page_size_section(bytes: &[u8], pos: usize, byte: u8) -> (r: Result<
        (Option<i32>, usize),
        Error,
    >)
        ensures
            match parse_page_size_section(bytes@, pos as int, byte) {
                Ok((v, end)) => r matches Ok((x, e)) && x == v && e == end,
                Err(w) => r matches Err(e) && e@ == w,
            },
            r matches Ok((_, e)) ==> e == pos || e <= bytes@.len(),
    {
        if QueryFlags::has_page_size(byte) {
            let (size, end) = read_int(bytes, pos)?;
            Ok((Some(size), end))
        } else {
            Ok((None, pos))
        }
    }

    /// Reads the paging state at `pos`, which is there where `byte` raises its flag.
    fn read_paging_state_section(bytes: &[u8], pos: usize, byte: u8) -> (r: Result<
        (Option<CBytes>, usize),
        Error,
    >)
        ensures
            match parse_paging_state_section(bytes@, pos as int, byte) {
                Ok((v, end)) => r matches Ok((x, e)) && e == end && match x {
                    Some(state) => v == Some(state@),
                    None => v is None,
                },
                Err(w) => r matches Err(e) && e@ == w,
            },
            r matches Ok((_, e)) ==> e == pos || e <= bytes@.len(),
    {
        if QueryFlags::has_with_paging_state(byte) {
            let (state, end) = CBytes::decode(bytes, pos)?;
            Ok((Some(state), end))
        } else {
            Ok((None, pos))
        }
    }

    /// Reads the serial consistency at `pos`, which is there where `byte` raises
    /// its flag.
    fn read_serial_section(bytes: &[u8], pos: usize, byte: u8) -> (r: Result<
        (Option<Consistency>, usize),
        Error,
    >)
        ensures
            match parse_serial_section(bytes@, pos as int, byte) {
                Ok((v, end)) => r matches Ok((x, e)) && x == v && e == end,
                Err(w) => r matches Err(e) && e@ == w,
            },
            r matches Ok((_, e)) ==> e == pos || e <= bytes@.len(),
    {
        if QueryFlags::has_with_serial_consistency(byte) {
            let (level, end) = Consistency::decode(bytes, pos)?;
            Ok((Some(level), end))
        } else {
            Ok((None, pos))
        }
    }

    /// Reads the timestamp at `pos`, which is there where `byte` raises its flag.
    fn read_timestamp_section(bytes: &[u8], pos: usize, byte: u8) -> (r: Result<
        (Option<i64>, usize),
        Error,
    >)
        ensures
            match parse_timestamp_section(bytes@, pos as int, byte) {
                Ok((v, end)) => r matches Ok((x, e)) && x == v && e == end,
                Err(w) => r matches Err(e) && e@ == w,
            },
            r matches Ok((_, e)) ==> e == pos || e <= bytes@.len(),
    {
        if QueryFlags::has_with_default_timestamp(byte) {
            let (timestamp, end) = read_bigint(bytes, pos)?;
            Ok((Some(timestamp), end))
        } else {
            Ok((None, pos))
        }
    }

    /// Reads the optional sections from `pos` on, as `byte` announces them.
    fn read_sections(bytes: &[u8], pos: usize, consistency: Consistency, byte: u8) -> (r: Result<
        (QueryParams, usize),
        Error,
    >)
        ensures
            match parse_sections(bytes@, pos as int, consistency, byte) {
                Ok((v, end)) => r matches Ok((x, e)) && x@ == v && e == end,
                Err(w) => r matches Err(e) && e@ == w,
            },
            r matches Ok((_, e)) ==> e == pos || e <= bytes@.len(),
    {
        let (values, at1) = QueryParams::read_values_section(bytes, pos, byte)?;
        let (page_size, at2) = QueryParams::read_page_size_section(bytes, at1, byte)?;
        let (paging_state, at3) = QueryParams::read_paging_state_section(bytes, at2, byte)?;
        let (serial_consistency, at4) = QueryParams::read_serial_section(bytes, at3, byte)?;
        let (timestamp, end) = QueryParams::read_timestamp_section(bytes, at4, byte)?;
        let params = QueryParams {
            consistency,
            flags: QueryParams::parse_query_flags(byte),
            with_names: Some(QueryFlags::has_with_names_for_values(byte)),
            values,
            page_size,
            paging_state,
            serial_consistency,
            timestamp,
        };
        Ok((params, end))
    }

    /// Reads the parameters at `pos`.
    pub fn decode(bytes: &[u8], pos: usize) -> (r: Result<(QueryParams, usize), Error>)
        ensures
            match parse_query_params(bytes@, pos as int) {
                Ok((v, end)) => r matches Ok((x, e)) && x@ == v && e == end,
                Err(w) => r matches Err(e) && e@ == w,
            },
            r matches Ok((_, e)) ==> e <= bytes@.len(),
    {
        let (consistency, at1) = Consistency::decode(bytes, pos)?;
        let (byte, at2) = read_byte(bytes, at1)?;
        QueryParams::read_sections(bytes, at2, consistency, byte)
    }

    /// Reads the parameters at the cursor and moves the cursor behind them. A
    /// failure leaves the cursor where it was.
    pub fn from_cursor(cursor: &mut Cursor) -> (r: Result<QueryParams, Error>)
        ensures
            final(cursor).data() == old(cursor).data(),
            match parse_query_params(old(cursor).data(), old(cursor).pos()) {
                Ok((v, end)) => r matches Ok(x) && x@ == v && final(cursor).pos() == end,
                Err(w) => r matches Err(e) && e@ == w && final(cursor).pos() == old(cursor).pos(),
            },
    {
        let (params, end) = QueryParams::decode(cursor.get_ref(), cursor.position())?;
        cursor.set_position(end);
        Ok(params)
    }
}

impl Default for QueryParams {
    /// Parameters with consistency `One` and nothing else.
    fn default() -> (p: QueryParams)
        ensures
            p@ == QueryParamsView::initial(),
    {
        QueryParams {
            consistency: Consistency::One,
            flags: Vec::new(),
            with_names: None,
            values: None,
            page_size: None,
            paging_state: None,
            serial_consistency: None,
            timestamp: None,
        }
    }
}

} // verus!
