//! A query argument in its three states: bytes, null, or not set.

use crate::endian::{i32_bytes, lemma_be_bytes_len, unsigned};
use crate::error::{bad_value_message, Error, ErrorView};
use crate::types::{
    holds_at, i32_wire, lemma_holds_at_split, lemma_parse_i32_wire, parse_bytes, parse_i32,
    read_bytes, read_int, Parsed,
};
use vstd::prelude::*;
use vstd::slice::slice_to_vec;

verus! {

/// The state of a query argument.
#[derive(Debug, Clone, Copy, PartialEq, Eq)]
pub enum ValueType {
    /// Bytes are given; the number is how many.
    Normal(i32),
    /// The argument is null.
    Null,
    /// The argument is left unbound.
    NotSet,
}

impl ValueType {
    /// The number that the length field of a value of this state shows.
    pub open spec fn size_field(self) -> i32 {
        match self {
            ValueType::Normal(n) => n,
            ValueType::Null => -1i32,
            ValueType::NotSet => -2i32,
        }
    }
}

/// A query argument.
#[derive(Debug, Clone, PartialEq, Eq)]
pub struct Value {
    /// The bytes of the argument; empty unless the state is `Normal`.
    pub body: Vec<u8>,
    /// The state of the argument.
    pub value_type: ValueType,
}

/// Mathematical content of a [`Value`].
pub struct ValueView {
    pub body: Seq<u8>,
    pub value_type: ValueType,
}

impl View for Value {
    type V = ValueView;

    open spec fn view(&self) -> ValueView {
        ValueView { body: self.body@, value_type: self.value_type }
    }
}

impl ValueView {
    /// State and bytes agree, and the value has a form on the wire that is read
    /// back as the same value: a `Normal` value counts its bytes and has at least one,
    /// the other two states carry none.
    pub open spec fn wf(self) -> bool {
        match self.value_type {
            ValueType::Normal(n) => n > 0 && self.body.len() == n,
            ValueType::Null => self.body.len() == 0,
            ValueType::NotSet => self.body.len() == 0,
        }
    }
}

/// Layout of a value: the length field, then the bytes.
pub open spec fn value_wire(v: ValueView) -> Seq<u8> {
    i32_wire(v.value_type.size_field()) + v.body
}

/// The value at `pos`: a positive length field is followed by that many bytes, -1
/// stands for null and -2 for not set; any other length is refused.
pub open spec fn parse_value(s: Seq<u8>, pos: int) -> Parsed<ValueView> {
    match parse_i32(s, pos) {
        Ok((size, at)) => if size > 0 {
            match parse_bytes(s, at, size as int) {
                Ok((body, end)) => Ok(
                    (ValueView { body, value_type: ValueType::Normal(size) }, end),
                ),
                Err(e) => Err(e),
            }
        } else if size == -1 {
            Ok((ValueView { body: Seq::empty(), value_type: ValueType::Null }, at))
        } else if size == -2 {
            Ok((ValueView { body: Seq::empty(), value_type: ValueType::NotSet }, at))
        } else {
            Err(ErrorView::General(bad_value_message()))
        },
        Err(e) => Err(e),
    }
}

/// A well-formed value is read back as written.
pub proof fn lemma_parse_value_wire(s: Seq<u8>, pos: int, v: ValueView)
    requires
        v.wf(),
        holds_at(s, pos, value_wire(v)),
    ensures
        parse_value(s, pos) == Ok::<(ValueView, int), ErrorView>(
            (v, pos + value_wire(v).len()),
        ),
        value_wire(v).len() == 4 + v.body.len(),
{
    let size = v.value_type.size_field();
    lemma_be_bytes_len(unsigned(size as int, 4), 4);
    lemma_holds_at_split(s, pos, i32_wire(size), v.body);
    lemma_parse_i32_wire(s, pos, size);
    assert(v.body.len() == 0 ==> v.body =~= Seq::<u8>::empty());
}

impl Value {
    /// A value that carries `body`. The state counts the bytes, up to the largest
    /// count that the length field can show.
    pub fn new_normal(body: Vec<u8>) -> (v: Value)
        ensures
            v@.body == body@,
            v@.value_type == ValueType::Normal(
                if body@.len() <= i32::MAX {
                    body@.len() as i32
                } else {
                    i32::MAX
                },
            ),
            v@.wf() <==> 0 < body@.len() <= i32::MAX,
    {
        let len: usize = body.len();
        let count: i32 = if len <= i32::MAX as usize {
            len as i32
        } else {
            i32::MAX
        };
        Value { body, value_type: ValueType::Normal(count) }
    }

    /// The null value.
    pub fn new_null() -> (v: Value)
        ensures
            v@ == (ValueView { body: Seq::empty(), value_type: ValueType::Null }),
            v@.wf(),
    {
        Value { body: Vec::new(), value_type: ValueType::Null }
    }

    /// The value of an argument that is left unbound.
    pub fn new_not_set() -> (v: Value)
        ensures
            v@ == (ValueView { body: Seq::empty(), value_type: ValueType::NotSet }),
            v@.wf(),
    {
        Value { body: Vec::new(), value_type: ValueType::NotSet }
    }

    /// The bytes of this value on the wire.
    pub fn into_cbytes(&self) -> (out: Vec<u8>)
        ensures
            out@ == value_wire(self@),
    {
        let size: i32 = match self.value_type {
            ValueType::Normal(n) => n,
            ValueType::Null => -1,
            ValueType::NotSet => -2,
        };
        let mut out = i32_bytes(size);
        out.extend_from_slice(self.body.as_slice());
        out
    }

    /// Reads the value at `pos`.
    pub fn decode(bytes: &[u8], pos: usize) -> (r: Result<(Value, usize), Error>)
        ensures
            match parse_value(bytes@, pos as int) {
                Ok((v, end)) => r matches Ok((x, e)) && x@ == v && e == end,
                Err(w) => r matches Err(e) && e@ == w,
            },
    {
        let (size, at) = read_int(bytes, pos)?;
        if size > 0 {
            let (body, end) = read_bytes(bytes, at, size as usize)?;
            Ok((Value { body: slice_to_vec(body), value_type: ValueType::Normal(size) }, end))
        } else if size == -1 {
            Ok((Value::new_null(), at))
        } else if size == -2 {
            Ok((Value::new_not_set(), at))
        } else {
            Err(Error::bad_value())
        }
    }
}

} // verus!
