//! The values of a query: in the order of its markers, or each with the name of
//! the marker it is bound to.

use crate::error::{Error, ErrorView};
use crate::types::{
    holds_at, lemma_holds_at_split, lemma_parse_string_wire, parse_string, read_string,
    string_bytes, string_wire, Parsed,
};
use crate::value::{lemma_parse_value_wire, parse_value, value_wire, Value, ValueView};
use vstd::prelude::*;
use vstd::utf8::encode_utf8;

verus! {

/// The values of a query.
#[derive(Debug, Clone, PartialEq, Eq)]
pub enum QueryValues {
    /// Values in the order of the markers of the query.
    SimpleValues(Vec<Value>),
    /// Values with the names of their markers, in the order in which they go on
    /// the wire. They are kept as a list so that the wire form is a function of the
    /// values: a hash map would hand them out in an order that changes from run to
    /// run. No name occurs twice where the list was built by [`put_named`] or read
    /// from the wire.
    NamedValues(Vec<(String, Value)>),
}

/// Mathematical content of [`QueryValues`].
pub enum QueryValuesView {
    SimpleValues(Seq<ValueView>),
    NamedValues(Seq<(Seq<char>, ValueView)>),
}

/// The contents of a sequence of values.
pub open spec fn value_views(v: Seq<Value>) -> Seq<ValueView> {
    Seq::new(v.len(), |i: int| v[i]@)
}

/// The contents of a sequence of named values.
pub open spec fn named_views(v: Seq<(String, Value)>) -> Seq<(Seq<char>, ValueView)> {
    Seq::new(v.len(), |i: int| (v[i].0@, v[i].1@))
}

impl View for QueryValues {
    type V = QueryValuesView;

    open spec fn view(&self) -> QueryValuesView {
        match *self {
            QueryValues::SimpleValues(v) => QueryValuesView::SimpleValues(value_views(v@)),
            QueryValues::NamedValues(v) => QueryValuesView::NamedValues(named_views(v@)),
        }
    }
}

/// No name occurs twice in the list.
pub open spec fn distinct_names(list: Seq<(Seq<char>, ValueView)>) -> bool {
    forall|i: int, j: int| 0 <= i < j < list.len() ==> (#[trigger] list[i]).0 != (#[trigger] list[j]).0
}

/// The list binds `name`.
pub open spec fn has_name(list: Seq<(Seq<char>, ValueView)>, name: Seq<char>) -> bool {
    exists|i: int| 0 <= i < list.len() && (#[trigger] list[i]).0 == name
}

/// `i` is the first place at which the list binds `name`.
pub open spec fn is_slot(list: Seq<(Seq<char>, ValueView)>, name: Seq<char>, i: int) -> bool {
    &&& 0 <= i < list.len()
    &&& list[i].0 == name
    &&& forall|j: int| 0 <= j < i ==> (#[trigger] list[j]).0 != name
}

/// The first place at which the list binds `name`, where it binds it at all.
pub open spec fn slot(list: Seq<(Seq<char>, ValueView)>, name: Seq<char>) -> int {
    choose|i: int| is_slot(list, name, i)
}

/// The list after `name` has been bound to `value`: a name that the list holds
/// keeps its place and gets the new value, a new name goes to the end.
pub open spec fn put(list: Seq<(Seq<char>, ValueView)>, name: Seq<char>, value: ValueView) -> Seq<
    (Seq<char>, ValueView),
> {
    if has_name(list, name) {
        list.update(slot(list, name), (name, value))
    } else {
        list.push((name, value))
    }
}

impl QueryValuesView {
    /// The number of values.
    pub open spec fn len(self) -> nat {
        match self {
            QueryValuesView::SimpleValues(v) => v.len(),
            QueryValuesView::NamedValues(v) => v.len(),
        }
    }

    /// The values carry names.
    pub open spec fn with_names(self) -> bool {
        self is NamedValues
    }

    /// The values have a form on the wire that is read back as the same values:
    /// a one-byte count can show their number, each value is well formed, and each
    /// name is written once and fits its two-byte length.
    pub open spec fn wf(self) -> bool {
        match self {
            QueryValuesView::SimpleValues(v) => {
                &&& v.len() <= 255
                &&& forall|i: int| 0 <= i < v.len() ==> (#[trigger] v[i]).wf()
            },
            QueryValuesView::NamedValues(v) => {
                &&& v.len() <= 255
                &&& distinct_names(v)
                &&& forall|i: int|
                    0 <= i < v.len() ==> (#[trigger] v[i]).1.wf() && encode_utf8(v[i].0).len()
                        < 0x1_0000
            },
        }
    }
}

/// Layout of values without names: one value after the other.
pub open spec fn simple_wire(v: Seq<ValueView>) -> Seq<u8>
    decreases v.len(),
{
    if v.len() == 0 {
        Seq::empty()
    } else {
        simple_wire(v.drop_last()) + value_wire(v.last())
    }
}

/// Layout of one named value: the name as a text, then the value.
pub open spec fn entry_wire(entry: (Seq<char>, ValueView)) -> Seq<u8> {
    string_wire(entry.0) + value_wire(entry.1)
}

/// Layout of values with names: one named value after the other.
pub open spec fn named_wire(v: Seq<(Seq<char>, ValueView)>) -> Seq<u8>
    decreases v.len(),
{
    if v.len() == 0 {
        Seq::empty()
    } else {
        named_wire(v.drop_last()) + entry_wire(v.last())
    }
}

/// Layout of the values of a query, without their count.
pub open spec fn values_wire(v: QueryValuesView) -> Seq<u8> {
    match v {
        QueryValuesView::SimpleValues(v) => simple_wire(v),
        QueryValuesView::NamedValues(v) => named_wire(v),
    }
}

/// The first `n` of the values that follow each other from `pos` on.
pub open spec fn parse_simple_values(s: Seq<u8>, pos: int, n: nat) -> Parsed<Seq<ValueView>>
    decreases n,
{
    if n == 0 {
        Ok((Seq::empty(), pos))
    } else {
        match parse_simple_values(s, pos, (n - 1) as nat) {
            Ok((values, at)) => match parse_value(s, at) {
                Ok((value, end)) => Ok((values.push(value), end)),
                Err(e) => Err(e),
            },
            Err(e) => Err(e),
        }
    }
}

/// The named value at `pos`.
pub open spec fn parse_entry(s: Seq<u8>, pos: int) -> Parsed<(Seq<char>, ValueView)> {
    match parse_string(s, pos) {
        Ok((name, at)) => match parse_value(s, at) {
            Ok((value, end)) => Ok(((name, value), end)),
            Err(e) => Err(e),
        },
        Err(e) => Err(e),
    }
}

/// The bindings made by the first `n` of the named values that follow each other
/// from `pos` on. A name that comes again takes the later value.
pub open spec fn parse_named_values(s: Seq<u8>, pos: int, n: nat) -> Parsed<
    Seq<(Seq<char>, ValueView)>,
>
    decreases n,
{
    if n == 0 {
        Ok((Seq::empty(), pos))
    } else {
        match parse_named_values(s, pos, (n - 1) as nat) {
            Ok((list, at)) => match parse_entry(s, at) {
                Ok((entry, end)) => Ok((put(list, entry.0, entry.1), end)),
                Err(e) => Err(e),
            },
            Err(e) => Err(e),
        }
    }
}

/// The `n` values from `pos` on, with names where `named` says so.
pub open spec fn parse_values(s: Seq<u8>, pos: int, n: nat, named: bool) -> Parsed<
    QueryValuesView,
> {
    if named {
        match parse_named_values(s, pos, n) {
            Ok((list, end)) => Ok((QueryValuesView::NamedValues(list), end)),
            Err(e) => Err(e),
        }
    } else {
        match parse_simple_values(s, pos, n) {
            Ok((list, end)) => Ok((QueryValuesView::SimpleValues(list), end)),
            Err(e) => Err(e),
        }
    }
}

/// A failure among the first values is the failure of any longer run of them.
pub proof fn lemma_parse_simple_fails(s: Seq<u8>, pos: int, k: nat, n: nat)
    requires
        k <= n,
    ensures
        parse_simple_values(s, pos, k) is Err ==> parse_simple_values(s, pos, n)
            == parse_simple_values(s, pos, k),
    decreases n,
{
    if k < n {
        lemma_parse_simple_fails(s, pos, k, (n - 1) as nat);
    }
}

/// A failure among the first named values is the failure of any longer run of them.
pub proof fn lemma_parse_named_fails(s: Seq<u8>, pos: int, k: nat, n: nat)
    requires
        k <= n,
    ensures
        parse_named_values(s, pos, k) is Err ==> parse_named_values(s, pos, n)
            == parse_named_values(s, pos, k),
    decreases n,
{
    if k < n {
        lemma_parse_named_fails(s, pos, k, (n - 1) as nat);
    }
}

/// Where the list binds `name`, its slot is the one first place that does.
pub proof fn lemma_slot(list: Seq<(Seq<char>, ValueView)>, name: Seq<char>, i: int)
    requires
        is_slot(list, name, i),
    ensures
        has_name(list, name),
        slot(list, name) == i,
{
    let c = slot(list, name);
    assert(is_slot(list, name, c));
    if c < i {
        assert(list[c].0 != name);
    }
    if i < c {
        assert(list[i].0 != name);
    }
}

/// Binding a name keeps the names of a list distinct.
pub proof fn lemma_put_distinct(list: Seq<(Seq<char>, ValueView)>, name: Seq<char>, value: ValueView)
    requires
        distinct_names(list),
    ensures
        distinct_names(put(list, name, value)),
        !has_name(list, name) ==> put(list, name, value) == list.push((name, value)),
{
    let next = put(list, name, value);
    if has_name(list, name) {
        let w = choose|i: int| 0 <= i < list.len() && (#[trigger] list[i]).0 == name;
        lemma_first_slot(list, name, w);
        let c = slot(list, name);
        assert(is_slot(list, name, c));
        assert forall|i: int, j: int| 0 <= i < j < next.len() implies (#[trigger] next[i]).0 != (
        #[trigger] next[j]).0 by {
            assert(next[i].0 == list[i].0);
            assert(next[j].0 == list[j].0);
        }
    } else {
        assert forall|i: int, j: int| 0 <= i < j < next.len() implies (#[trigger] next[i]).0 != (
        #[trigger] next[j]).0 by {
            if j < list.len() {
                assert(next[i].0 == list[i].0);
                assert(next[j].0 == list[j].0);
            } else {
                assert(next[i] == list[i]);
            }
        }
    }
}

/// A list that binds `name` somewhere up to `w` has a first place that does.
pub proof fn lemma_first_slot(list: Seq<(Seq<char>, ValueView)>, name: Seq<char>, w: int)
    requires
        0 <= w < list.len(),
        list[w].0 == name,
    ensures
        exists|i: int| is_slot(list, name, i),
        is_slot(list, name, slot(list, name)),
    decreases w,
{
    if exists|j: int| 0 <= j < w && (#[trigger] list[j]).0 == name {
        let j = choose|j: int| 0 <= j < w && (#[trigger] list[j]).0 == name;
        lemma_first_slot(list, name, j);
    } else {
        assert(is_slot(list, name, w));
    }
}

/// The bindings read from the wire hold no name twice.
pub proof fn lemma_parse_named_distinct(s: Seq<u8>, pos: int, n: nat)
    ensures
        parse_named_values(s, pos, n) matches Ok((list, _)) ==> distinct_names(list),
    decreases n,
{
    if n > 0 {
        lemma_parse_named_distinct(s, pos, (n - 1) as nat);
        match parse_named_values(s, pos, (n - 1) as nat) {
            Ok((list, at)) => match parse_entry(s, at) {
                Ok((entry, end)) => {
                    lemma_put_distinct(list, entry.0, entry.1);
                },
                Err(e) => {},
            },
            Err(e) => {},
        }
    }
}

/// Well-formed values without names are read back as written.
pub proof fn lemma_parse_simple_wire(s: Seq<u8>, pos: int, v: Seq<ValueView>)
    requires
        forall|i: int| 0 <= i < v.len() ==> (#[trigger] v[i]).wf(),
        holds_at(s, pos, simple_wire(v)),
    ensures
        parse_simple_values(s, pos, v.len()) == Ok::<(Seq<ValueView>, int), ErrorView>(
            (v, pos + simple_wire(v).len()),
        ),
    decreases v.len(),
{
    if v.len() == 0 {
        assert(v =~= Seq::<ValueView>::empty());
    } else {
        let front = v.drop_last();
        lemma_holds_at_split(s, pos, simple_wire(front), value_wire(v.last()));
        assert forall|i: int| 0 <= i < front.len() implies (#[trigger] front[i]).wf() by {
            assert(front[i] == v[i]);
        }
        lemma_parse_simple_wire(s, pos, front);
        lemma_parse_value_wire(s, pos + simple_wire(front).len(), v.last());
        assert(front.push(v.last()) =~= v);
    }
}

/// Well-formed values with distinct names are read back as written.
pub proof fn lemma_parse_named_wire(s: Seq<u8>, pos: int, v: Seq<(Seq<char>, ValueView)>)
    requires
        distinct_names(v),
        forall|i: int|
            0 <= i < v.len() ==> (#[trigger] v[i]).1.wf() && encode_utf8(v[i].0).len()
                < 0x1_0000,
        holds_at(s, pos, named_wire(v)),
    ensures
        parse_named_values(s, pos, v.len()) == Ok::<(Seq<(Seq<char>, ValueView)>, int), ErrorView>(
            (v, pos + named_wire(v).len()),
        ),
    decreases v.len(),
{
    if v.len() == 0 {
        assert(v =~= Seq::<(Seq<char>, ValueView)>::empty());
    } else {
        let front = v.drop_last();
        let last = v.last();
        lemma_holds_at_split(s, pos, named_wire(front), entry_wire(last));
        assert forall|i: int| 0 <= i < front.len() implies (#[trigger] front[i]).1.wf()
            && encode_utf8(front[i].0).len() < 0x1_0000 by {
            assert(front[i] == v[i]);
        }
        assert(distinct_names(front)) by {
            assert forall|i: int, j: int| 0 <= i < j < front.len() implies (#[trigger] front[i]).0
                != (#[trigger] front[j]).0 by {
                assert(front[i] == v[i]);
                assert(front[j] == v[j]);
            }
        }
        lemma_parse_named_wire(s, pos, front);
        let at = pos + named_wire(front).len();
        lemma_holds_at_split(s, at, string_wire(last.0), value_wire(last.1));
        lemma_parse_string_wire(s, at, last.0);
        lemma_parse_value_wire(s, at + string_wire(last.0).len(), last.1);
        assert(!has_name(front, last.0)) by {
            if has_name(front, last.0) {
                let i = choose|i: int| 0 <= i < front.len() && (#[trigger] front[i]).0 == last.0;
                assert(front[i] == v[i]);
                assert(v[i].0 != v[v.len() - 1].0);
            }
        }
        assert(front.push(last) =~= v);
    }
}

/// Binds `name` to `value` in `list`: a name that the list holds keeps its place
/// and gets the new value, a new name goes to the end.
pub fn put_named(list: &mut Vec<(String, Value)>, name: String, value: Value)
    ensures
        named_views(final(list)@) == put(named_views(old(list)@), name@, value@),
        distinct_names(named_views(old(list)@)) ==> distinct_names(named_views(final(list)@)),
{
    let ghost before = named_views(list@);
    proof {
        if distinct_names(before) {
            lemma_put_distinct(before, name@, value@);
        }
    }
    let mut i: usize = 0;
    while i < list.len()
        invariant
            i <= list.len(),
            before == named_views(old(list)@),
            named_views(list@) == before,
            forall|j: int| 0 <= j < i ==> (#[trigger] before[j]).0 != name@,
        decreases list.len() - i,
    {
        if list[i].0 == name {
            proof {
                assert(before[i as int].0 == name@);
                lemma_slot(before, name@, i as int);
            }
            list.set(i, (name, value));
            assert(named_views(list@) =~= before.update(i as int, (name@, value@)));
            return ;
        }
        i = i + 1;
    }
    proof {
        assert(!has_name(before, name@));
    }
    list.push((name, value));
    assert(named_views(list@) =~= before.push((name@, value@)));
}

impl QueryValues {
    /// Says whether the values carry names.
    pub fn with_names(&self) -> (named: bool)
        ensures
            named == self@.with_names(),
    {
        match self {
            QueryValues::SimpleValues(_) => false,
            QueryValues::NamedValues(_) => true,
        }
    }

    /// The number of values.
    pub fn len(&self) -> (n: usize)
        ensures
            n == self@.len(),
    {
        match self {
            QueryValues::SimpleValues(v) => v.len(),
            QueryValues::NamedValues(v) => v.len(),
        }
    }

    /// The bytes of the values on the wire, without their count.
    pub fn into_cbytes(&self) -> (out: Vec<u8>)
        ensures
            out@ == values_wire(self@),
    {
        let mut out: Vec<u8> = Vec::new();
        match self {
            QueryValues::SimpleValues(v) => {
                let ghost all = value_views(v@);
                let mut i: usize = 0;
                while i < v.len()
                    invariant
                        i <= v.len(),
                        all == value_views(v@),
                        out@ == simple_wire(all.take(i as int)),
                    decreases v.len() - i,
                {
                    let piece = v[i].into_cbytes();
                    out.extend_from_slice(piece.as_slice());
                    proof {
                        assert(all.take(i + 1).drop_last() =~= all.take(i as int));
                    }
                    i = i + 1;
                }
                proof {
                    assert(all.take(i as int) =~= all);
                }
            },
            QueryValues::NamedValues(v) => {
                let ghost all = named_views(v@);
                let mut i: usize = 0;
                while i < v.len()
                    invariant
                        i <= v.len(),
                        all == named_views(v@),
                        out@ == named_wire(all.take(i as int)),
                    decreases v.len() - i,
                {
                    let name = string_bytes(v[i].0.as_str());
                    let piece = v[i].1.into_cbytes();
                    let ghost so_far = out@;
                    out.extend_from_slice(name.as_slice());
                    out.extend_from_slice(piece.as_slice());
                    proof {
                        assert(all.take(i + 1).drop_last() =~= all.take(i as int));
                        assert(out@ =~= so_far + entry_wire(all[i as int]));
                    }
                    i = i + 1;
                }
                proof {
                    assert(all.take(i as int) =~= all);
                }
            },
        }
        out
    }

    /// Reads the `n` values from `pos` on, with names where `named` says so.
    pub fn decode(bytes: &[u8], pos: usize, n: u8, named: bool) -> (r: Result<
        (QueryValues, usize),
        Error,
    >)
        ensures
            match parse_values(bytes@, pos as int, n as nat, named) {
                Ok((v, end)) => r matches Ok((x, e)) && x@ == v && e == end,
                Err(w) => r matches Err(e) && e@ == w,
            },
            r matches Ok((_, e)) ==> e == pos || e <= bytes@.len(),
            r matches Ok((QueryValues::NamedValues(list), _)) ==> distinct_names(
                named_views(list@),
            ),
    {
        proof {
            lemma_parse_named_distinct(bytes@, pos as int, n as nat);
        }
        let mut at: usize = pos;
        let mut i: u8 = 0;
        if named {
            let mut list: Vec<(String, Value)> = Vec::new();
            assert(named_views(list@) =~= Seq::<(Seq<char>, ValueView)>::empty());
            while i < n
                invariant
                    i <= n,
                    named,
                    at == pos || at <= bytes@.len(),
                    parse_named_values(bytes@, pos as int, i as nat) == Ok::<
                        (Seq<(Seq<char>, ValueView)>, int),
                        ErrorView,
                    >((named_views(list@), at as int)),
                decreases n - i,
            {
                proof {
                    lemma_parse_named_fails(bytes@, pos as int, (i + 1) as nat, n as nat);
                }
                let (name, mid) = read_string(bytes, at)?;
                let (value, end) = Value::decode(bytes, mid)?;
                put_named(&mut list, name, value);
                at = end;
                i = i + 1;
            }
            Ok((QueryValues::NamedValues(list), at))
        } else {
            let mut list: Vec<Value> = Vec::new();
            assert(value_views(list@) =~= Seq::<ValueView>::empty());
            while i < n
                invariant
                    i <= n,
                    !named,
                    at == pos || at <= bytes@.len(),
                    parse_simple_values(bytes@, pos as int, i as nat) == Ok::<
                        (Seq<ValueView>, int),
                        ErrorView,
                    >((value_views(list@), at as int)),
                decreases n - i,
            {
                proof {
                    lemma_parse_simple_fails(bytes@, pos as int, (i + 1) as nat, n as nat);
                }
                let (value, end) = Value::decode(bytes, at)?;
                proof {
                    assert(value_views(list@.push(value)) =~= value_views(list@).push(value@));
                }
                list.push(value);
                at = end;
                i = i + 1;
            }
            Ok((QueryValues::SimpleValues(list), at))
        }
    }
}

} // verus!
