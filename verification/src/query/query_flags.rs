//! The flag byte of a block of query parameters.

use vstd::prelude::*;

verus! {

/// One optional section of a block of query parameters, or one request to the server,
/// each with a bit of its own in the flag byte.
#[derive(Debug, Clone, Copy, PartialEq, Eq, Hash, Structural)]
pub enum QueryFlags {
    /// Values follow.
    Value,
    /// The server may leave the metadata out of its result.
    SkipMetadata,
    /// A page size follows.
    PageSize,
    /// A paging state follows.
    WithPagingState,
    /// A serial consistency follows.
    WithSerialConsistency,
    /// A timestamp follows.
    WithDefaultTimestamp,
    /// Each value is preceded by its name.
    WithNamesForValues,
}

impl QueryFlags {
    /// The bit of this flag.
    pub open spec fn bit(self) -> u8 {
        match self {
            QueryFlags::Value => 0x01,
            QueryFlags::SkipMetadata => 0x02,
            QueryFlags::PageSize => 0x04,
            QueryFlags::WithPagingState => 0x08,
            QueryFlags::WithSerialConsistency => 0x10,
            QueryFlags::WithDefaultTimestamp => 0x20,
            QueryFlags::WithNamesForValues => 0x40,
        }
    }

    /// The flag is raised in `byte`.
    pub open spec fn is_set(self, byte: u8) -> bool {
        byte & self.bit() != 0
    }

    /// The bit of this flag.
    pub fn as_byte(&self) -> (b: u8)
        ensures
            b == self.bit(),
    {
        match self {
            QueryFlags::Value => 0x01,
            QueryFlags::SkipMetadata => 0x02,
            QueryFlags::PageSize => 0x04,
            QueryFlags::WithPagingState => 0x08,
            QueryFlags::WithSerialConsistency => 0x10,
            QueryFlags::WithDefaultTimestamp => 0x20,
            QueryFlags::WithNamesForValues => 0x40,
        }
    }

    /// Says whether `byte` announces values.
    pub fn has_value(byte: u8) -> (b: bool)
        ensures
            b == QueryFlags::Value.is_set(byte),
    {
        byte & 0x01 != 0
    }

    /// Says whether `byte` asks the server to leave the metadata out.
    pub fn has_skip_metadata(byte: u8) -> (b: bool)
        ensures
            b == QueryFlags::SkipMetadata.is_set(byte),
    {
        byte & 0x02 != 0
    }

    /// Says whether `byte` announces a page size.
    pub fn has_page_size(byte: u8) -> (b: bool)
        ensures
            b == QueryFlags::PageSize.is_set(byte),
    {
        byte & 0x04 != 0
    }

    /// Says whether `byte` announces a paging state.
    pub fn has_with_paging_state(byte: u8) -> (b: bool)
        ensures
            b == QueryFlags::WithPagingState.is_set(byte),
    {
        byte & 0x08 != 0
    }

    /// Says whether `byte` announces a serial consistency.
    pub fn has_with_serial_consistency(byte: u8) -> (b: bool)
        ensures
            b == QueryFlags::WithSerialConsistency.is_set(byte),
    {
        byte & 0x10 != 0
    }

    /// Says whether `byte` announces a timestamp.
    pub fn has_with_default_timestamp(byte: u8) -> (b: bool)
        ensures
            b == QueryFlags::WithDefaultTimestamp.is_set(byte),
    {
        byte & 0x20 != 0
    }

    /// Says whether `byte` announces names before the values.
    pub fn has_with_names_for_values(byte: u8) -> (b: bool)
        ensures
            b == QueryFlags::WithNamesForValues.is_set(byte),
    {
        byte & 0x40 != 0
    }
}

/// The bit of `flag` where `on` holds, and no bit where it does not.
pub open spec fn bit_if(on: bool, flag: QueryFlags) -> u8 {
    if on {
        flag.bit()
    } else {
        0
    }
}

/// The byte in which exactly the flags of the list are raised: the bitwise or of
/// their bits.
pub open spec fn flags_bits(flags: Seq<QueryFlags>) -> u8
    decreases flags.len(),
{
    if flags.len() == 0 {
        0
    } else {
        flags_bits(flags.drop_last()) | flags.last().bit()
    }
}

/// The list of `flags` without `flag`.
pub open spec fn flags_without(flags: Seq<QueryFlags>, flag: QueryFlags) -> Seq<QueryFlags>
    decreases flags.len(),
{
    if flags.len() == 0 {
        flags
    } else if flags.last() == flag {
        flags_without(flags.drop_last(), flag)
    } else {
        flags_without(flags.drop_last(), flag).push(flags.last())
    }
}

/// The flags that are raised in `byte`, each once, in the order of their bits.
pub open spec fn flags_of(byte: u8) -> Seq<QueryFlags> {
    let a = if QueryFlags::Value.is_set(byte) {
        seq![QueryFlags::Value]
    } else {
        Seq::empty()
    };
    let b = if QueryFlags::SkipMetadata.is_set(byte) {
        a.push(QueryFlags::SkipMetadata)
    } else {
        a
    };
    let c = if QueryFlags::PageSize.is_set(byte) {
        b.push(QueryFlags::PageSize)
    } else {
        b
    };
    let d = if QueryFlags::WithPagingState.is_set(byte) {
        c.push(QueryFlags::WithPagingState)
    } else {
        c
    };
    let e = if QueryFlags::WithSerialConsistency.is_set(byte) {
        d.push(QueryFlags::WithSerialConsistency)
    } else {
        d
    };
    let f = if QueryFlags::WithDefaultTimestamp.is_set(byte) {
        e.push(QueryFlags::WithDefaultTimestamp)
    } else {
        e
    };
    if QueryFlags::WithNamesForValues.is_set(byte) {
        f.push(QueryFlags::WithNamesForValues)
    } else {
        f
    }
}

/// Removing a flag from a list lowers its bit in the byte of the list and leaves
/// the other bits as they are.
pub proof fn lemma_flags_without_bits(flags: Seq<QueryFlags>, flag: QueryFlags)
    ensures
        flags_bits(flags_without(flags, flag)) == flags_bits(flags) & !flag.bit(),
    decreases flags.len(),
{
    if flags.len() == 0 {
        let m = flag.bit();
        assert(0u8 == 0u8 & !m) by (bit_vector);
    } else {
        lemma_flags_without_bits(flags.drop_last(), flag);
        let rest = flags_bits(flags.drop_last());
        let last = flags.last().bit();
        let m = flag.bit();
        if flags.last() == flag {
            assert(rest & !m == (rest | m) & !m) by (bit_vector);
        } else {
            assert(flags_without(flags, flag).drop_last() =~= flags_without(
                flags.drop_last(),
                flag,
            ));
            assert((last == 0x01 || last == 0x02 || last == 0x04 || last == 0x08 || last == 0x10
                || last == 0x20 || last == 0x40) && (m == 0x01 || m == 0x02 || m == 0x04 || m
                == 0x08 || m == 0x10 || m == 0x20 || m == 0x40) && last != m ==> (rest & !m)
                | last == (rest | last) & !m) by (bit_vector);
        }
    }
}

/// The byte of the list that is recovered from a byte has the seven flag bits of
/// that byte, and no other.
pub proof fn lemma_flags_of_bits(byte: u8)
    ensures
        flags_bits(flags_of(byte)) == byte & 0x7f,
{
    let a = if QueryFlags::Value.is_set(byte) {
        seq![QueryFlags::Value]
    } else {
        Seq::empty()
    };
    let b = if QueryFlags::SkipMetadata.is_set(byte) {
        a.push(QueryFlags::SkipMetadata)
    } else {
        a
    };
    let c = if QueryFlags::PageSize.is_set(byte) {
        b.push(QueryFlags::PageSize)
    } else {
        b
    };
    let d = if QueryFlags::WithPagingState.is_set(byte) {
        c.push(QueryFlags::WithPagingState)
    } else {
        c
    };
    let e = if QueryFlags::WithSerialConsistency.is_set(byte) {
        d.push(QueryFlags::WithSerialConsistency)
    } else {
        d
    };
    let f = if QueryFlags::WithDefaultTimestamp.is_set(byte) {
        e.push(QueryFlags::WithDefaultTimestamp)
    } else {
        e
    };
    let g = flags_of(byte);
    assert(a.len() > 0 ==> a.drop_last() =~= Seq::<QueryFlags>::empty());
    assert(flags_bits(a) == byte & 0x01) by {
        assert(flags_bits(Seq::<QueryFlags>::empty()) == 0);
        assert(a.len() > 0 ==> a.last() == QueryFlags::Value);
        assert(byte & 0x01 != 0 ==> 0u8 | 0x01 == byte & 0x01) by (bit_vector);
    }
    assert(flags_bits(b) == byte & 0x03) by {
        assert(b.len() > a.len() ==> b.drop_last() =~= a);
        let x = flags_bits(a);
        assert(x == byte & 0x01 ==> (if byte & 0x02 != 0 {
            x | 0x02
        } else {
            x
        }) == byte & 0x03) by (bit_vector);
    }
    assert(flags_bits(c) == byte & 0x07) by {
        assert(c.len() > b.len() ==> c.drop_last() =~= b);
        let x = flags_bits(b);
        assert(x == byte & 0x03 ==> (if byte & 0x04 != 0 {
            x | 0x04
        } else {
            x
        }) == byte & 0x07) by (bit_vector);
    }
    assert(flags_bits(d) == byte & 0x0f) by {
        assert(d.len() > c.len() ==> d.drop_last() =~= c);
        let x = flags_bits(c);
        assert(x == byte & 0x07 ==> (if byte & 0x08 != 0 {
            x | 0x08
        } else {
            x
        }) == byte & 0x0f) by (bit_vector);
    }
    assert(flags_bits(e) == byte & 0x1f) by {
        assert(e.len() > d.len() ==> e.drop_last() =~= d);
        let x = flags_bits(d);
        assert(x == byte & 0x0f ==> (if byte & 0x10 != 0 {
            x | 0x10
        } else {
            x
        }) == byte & 0x1f) by (bit_vector);
    }
    assert(flags_bits(f) == byte & 0x3f) by {
        assert(f.len() > e.len() ==> f.drop_last() =~= e);
        let x = flags_bits(e);
        assert(x == byte & 0x1f ==> (if byte & 0x20 != 0 {
            x | 0x20
        } else {
            x
        }) == byte & 0x3f) by (bit_vector);
    }
    assert(flags_bits(g) == byte & 0x7f) by {
        assert(g.len() > f.len() ==> g.drop_last() =~= f);
        let x = flags_bits(f);
        assert(x == byte & 0x3f ==> (if byte & 0x40 != 0 {
            x | 0x40
        } else {
            x
        }) == byte & 0x7f) by (bit_vector);
    }
}

/// `list` holds, in ascending order of their bits, exactly the flags with a bit
/// below `limit` that are raised in `byte`.
pub open spec fn lists_raised(list: Seq<QueryFlags>, byte: u8, limit: int) -> bool {
    &&& forall|i: int, j: int|
        0 <= i < j < list.len() ==> (#[trigger] list[i]).bit() < (#[trigger] list[j]).bit()
    &&& forall|i: int|
        0 <= i < list.len() ==> (#[trigger] list[i]).is_set(byte) && list[i].bit() < limit
    &&& forall|f: QueryFlags| f.is_set(byte) && f.bit() < limit ==> #[trigger] list.contains(f)
}

/// A list of the raised flags below the bit of `flag` becomes the list of the
/// raised flags up to that bit when `flag` is added where it is raised.
proof fn lemma_next_flag(list: Seq<QueryFlags>, byte: u8, flag: QueryFlags)
    requires
        lists_raised(list, byte, flag.bit() as int),
    ensures
        lists_raised(
            if flag.is_set(byte) {
                list.push(flag)
            } else {
                list
            },
            byte,
            2 * flag.bit(),
        ),
{
    let next = if flag.is_set(byte) {
        list.push(flag)
    } else {
        list
    };
    assert forall|f: QueryFlags| f.is_set(byte) && f.bit() < 2 * flag.bit() implies #[trigger] next.contains(
        f,
    ) by {
        if f.bit() < flag.bit() {
            assert(list.contains(f));
            let i = choose|i: int| 0 <= i < list.len() && list[i] == f;
            assert(next[i] == f);
        } else {
            assert(f == flag);
            assert(next[list.len() as int] == f);
        }
    }
    assert forall|i: int, j: int| 0 <= i < j < next.len() implies (#[trigger] next[i]).bit() < (
    #[trigger] next[j]).bit() by {
        if j < list.len() {
            assert(next[i] == list[i] && next[j] == list[j]);
        } else {
            assert(next[i] == list[i]);
        }
    }
    assert forall|i: int| 0 <= i < next.len() implies (#[trigger] next[i]).is_set(byte) && next[i].bit()
        < 2 * flag.bit() by {
        if i < list.len() {
            assert(next[i] == list[i]);
        }
    }
}

/// The list recovered from a byte holds a flag exactly where the byte raises it,
/// and holds the flags in ascending order of their bits, so each at most once.
pub proof fn lemma_flags_of_lists_raised(byte: u8)
    ensures
        forall|f: QueryFlags| #[trigger] flags_of(byte).contains(f) <==> f.is_set(byte),
        forall|i: int, j: int|
            0 <= i < j < flags_of(byte).len() ==> (#[trigger] flags_of(byte)[i]).bit() < (
            #[trigger] flags_of(byte)[j]).bit(),
{
    let start = Seq::<QueryFlags>::empty();
    assert(lists_raised(start, byte, 1));
    lemma_next_flag(start, byte, QueryFlags::Value);
    assert(start.push(QueryFlags::Value) =~= seq![QueryFlags::Value]);
    let a = if QueryFlags::Value.is_set(byte) {
        seq![QueryFlags::Value]
    } else {
        start
    };
    lemma_next_flag(a, byte, QueryFlags::SkipMetadata);
    let b = if QueryFlags::SkipMetadata.is_set(byte) {
        a.push(QueryFlags::SkipMetadata)
    } else {
        a
    };
    lemma_next_flag(b, byte, QueryFlags::PageSize);
    let c = if QueryFlags::PageSize.is_set(byte) {
        b.push(QueryFlags::PageSize)
    } else {
        b
    };
    lemma_next_flag(c, byte, QueryFlags::WithPagingState);
    let d = if QueryFlags::WithPagingState.is_set(byte) {
        c.push(QueryFlags::WithPagingState)
    } else {
        c
    };
    lemma_next_flag(d, byte, QueryFlags::WithSerialConsistency);
    let e = if QueryFlags::WithSerialConsistency.is_set(byte) {
        d.push(QueryFlags::WithSerialConsistency)
    } else {
        d
    };
    lemma_next_flag(e, byte, QueryFlags::WithDefaultTimestamp);
    let f = if QueryFlags::WithDefaultTimestamp.is_set(byte) {
        e.push(QueryFlags::WithDefaultTimestamp)
    } else {
        e
    };
    lemma_next_flag(f, byte, QueryFlags::WithNamesForValues);
    let all = flags_of(byte);
    assert(lists_raised(all, byte, 0x80));
    assert forall|x: QueryFlags| #[trigger] all.contains(x) implies x.is_set(byte) by {
        let i = choose|i: int| 0 <= i < all.len() && all[i] == x;
        assert(all[i].is_set(byte));
    }
}

} // verus!
