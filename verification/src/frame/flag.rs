//! The flag byte of a frame header.

use vstd::prelude::*;

verus! {

/// One optional treatment or section of a frame body, each with a bit of its own in
/// the flag byte of the header.
#[derive(Debug, Clone, Copy, PartialEq, Eq, Hash)]
pub enum Flag {
    /// The body is compressed.
    Compression,
    /// The body starts with a tracing id.
    Tracing,
    /// The body carries a custom payload.
    CustomPayload,
    /// The body carries warnings.
    Warning,
}

impl Flag {
    /// The bit of this flag.
    pub open spec fn bit(self) -> u8 {
        match self {
            Flag::Compression => 0x01,
            Flag::Tracing => 0x02,
            Flag::CustomPayload => 0x04,
            Flag::Warning => 0x08,
        }
    }

    /// The flag is raised in `byte`.
    pub open spec fn is_set(self, byte: u8) -> bool {
        byte & self.bit() != 0
    }

    /// The flags that are raised in `byte`, each once, in the order of their bits.
    pub open spec fn collection(byte: u8) -> Seq<Flag> {
        let a = if Flag::Compression.is_set(byte) {
            seq![Flag::Compression]
        } else {
            Seq::empty()
        };
        let b = if Flag::Tracing.is_set(byte) {
            a.push(Flag::Tracing)
        } else {
            a
        };
        let c = if Flag::CustomPayload.is_set(byte) {
            b.push(Flag::CustomPayload)
        } else {
            b
        };
        if Flag::Warning.is_set(byte) {
            c.push(Flag::Warning)
        } else {
            c
        }
    }

    /// The bit of this flag.
    pub fn as_byte(&self) -> (b: u8)
        ensures
            b == self.bit(),
    {
        match self {
            Flag::Compression => 0x01,
            Flag::Tracing => 0x02,
            Flag::CustomPayload => 0x04,
            Flag::Warning => 0x08,
        }
    }

    /// Says whether `byte` marks the body as compressed.
    pub fn has_compression(byte: u8) -> (b: bool)
        ensures
            b == Flag::Compression.is_set(byte),
    {
        byte & 0x01 != 0
    }

    /// Says whether `byte` announces a tracing id.
    pub fn has_tracing(byte: u8) -> (b: bool)
        ensures
            b == Flag::Tracing.is_set(byte),
    {
        byte & 0x02 != 0
    }

    /// Says whether `byte` announces a custom payload.
    pub fn has_custom_payload(byte: u8) -> (b: bool)
        ensures
            b == Flag::CustomPayload.is_set(byte),
    {
        byte & 0x04 != 0
    }

    /// Says whether `byte` announces warnings.
    pub fn has_warning(byte: u8) -> (b: bool)
        ensures
            b == Flag::Warning.is_set(byte),
    {
        byte & 0x08 != 0
    }

    /// The flags that are raised in `byte`, each once, in the order of their bits.
    pub fn get_collection(byte: u8) -> (flags: Vec<Flag>)
        ensures
            flags@ == Flag::collection(byte),
    {
        let mut flags: Vec<Flag> = Vec::new();
        assert(flags@ =~= Seq::<Flag>::empty());
        if Flag::has_compression(byte) {
            flags.push(Flag::Compression);
            assert(flags@ =~= seq![Flag::Compression]);
        }
        if Flag::has_tracing(byte) {
            flags.push(Flag::Tracing);
        }
        if Flag::has_custom_payload(byte) {
            flags.push(Flag::CustomPayload);
        }
        if Flag::has_warning(byte) {
            flags.push(Flag::Warning);
        }
        flags
    }
}

/// `list` holds, in ascending order of their bits, exactly the flags with a bit
/// below `limit` that are raised in `byte`.
pub open spec fn lists_raised(list: Seq<Flag>, byte: u8, limit: int) -> bool {
    &&& forall|i: int, j: int|
        0 <= i < j < list.len() ==> (#[trigger] list[i]).bit() < (#[trigger] list[j]).bit()
    &&& forall|i: int|
        0 <= i < list.len() ==> (#[trigger] list[i]).is_set(byte) && list[i].bit() < limit
    &&& forall|f: Flag| f.is_set(byte) && f.bit() < limit ==> #[trigger] list.contains(f)
}

/// A list of the raised flags below the bit of `flag` becomes the list of the
/// raised flags up to that bit when `flag` is added where it is raised.
proof fn lemma_next_flag(list: Seq<Flag>, byte: u8, flag: Flag)
    requires
        lists_raised(list, byte, flag.bit() as int),
    ensures
        lists_raised(
            if flag.is_set(byte) {
                list.push(flag)
            } else {
                list
            },
            byte,
            2 * flag.bit(),
        ),
{
    let next = if flag.is_set(byte) {
        list.push(flag)
    } else {
        list
    };
    assert forall|f: Flag| f.is_set(byte) && f.bit() < 2 * flag.bit() implies #[trigger] next.contains(
        f,
    ) by {
        if f.bit() < flag.bit() {
            assert(list.contains(f));
            let i = choose|i: int| 0 <= i < list.len() && list[i] == f;
            assert(next[i] == f);
        } else {
            assert(f == flag);
            assert(next[list.len() as int] == f);
        }
    }
    assert forall|i: int, j: int| 0 <= i < j < next.len() implies (#[trigger] next[i]).bit() < (
    #[trigger] next[j]).bit() by {
        if j < list.len() {
            assert(next[i] == list[i] && next[j] == list[j]);
        } else {
            assert(next[i] == list[i]);
        }
    }
    assert forall|i: int| 0 <= i < next.len() implies (#[trigger] next[i]).is_set(byte) && next[i].bit()
        < 2 * flag.bit() by {
        if i < list.len() {
            assert(next[i] == list[i]);
        }
    }
}

/// The list recovered from the flag byte of a header holds a flag exactly where
/// the byte raises it, and holds the flags in ascending order of their bits, so
/// each at most once.
pub proof fn lemma_collection_lists_raised(byte: u8)
    ensures
        forall|f: Flag| #[trigger] Flag::collection(byte).contains(f) <==> f.is_set(byte),
        forall|i: int, j: int|
            0 <= i < j < Flag::collection(byte).len() ==> (#[trigger] Flag::collection(
                byte,
            )[i]).bit() < (#[trigger] Flag::collection(byte)[j]).bit(),
{
    let start = Seq::<Flag>::empty();
    assert(lists_raised(start, byte, 1));
    lemma_next_flag(start, byte, Flag::Compression);
    assert(start.push(Flag::Compression) =~= seq![Flag::Compression]);
    let a = if Flag::Compression.is_set(byte) {
        seq![Flag::Compression]
    } else {
        start
    };
    lemma_next_flag(a, byte, Flag::Tracing);
    let b = if Flag::Tracing.is_set(byte) {
        a.push(Flag::Tracing)
    } else {
        a
    };
    lemma_next_flag(b, byte, Flag::CustomPayload);
    let c = if Flag::CustomPayload.is_set(byte) {
        b.push(Flag::CustomPayload)
    } else {
        b
    };
    lemma_next_flag(c, byte, Flag::Warning);
    let all = Flag::collection(byte);
    assert(lists_raised(all, byte, 0x10));
    assert forall|x: Flag| #[trigger] all.contains(x) implies x.is_set(byte) by {
        let i = choose|i: int| 0 <= i < all.len() && all[i] == x;
        assert(all[i].is_set(byte));
    }
}

} // verus!
