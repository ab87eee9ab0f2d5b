use cql_codec::consistency::Consistency;
use cql_codec::error::Error;
use cql_codec::query::query_values::put_named;
use cql_codec::query::QueryValues;
use cql_codec::value::{Value, ValueType};

#[test]
fn length_minus_two_is_not_set() {
    assert_eq!(
        Value::decode(&[0xff, 0xff, 0xff, 0xfe], 0),
        Ok((Value::new_not_set(), 4))
    );
    let (value, _) = Value::decode(&[0xff, 0xff, 0xff, 0xfe], 0).unwrap();
    assert_eq!(value.value_type, ValueType::NotSet);
    assert!(value.body.is_empty());
}

#[test]
fn length_minus_three_is_refused() {
    assert_eq!(
        Value::decode(&[0xff, 0xff, 0xff, 0xfd], 0),
        Err(Error::General("Could not decode query values".to_string()))
    );
}

#[test]
fn length_minus_one_is_null() {
    assert_eq!(Value::decode(&[0xff, 0xff, 0xff, 0xff, 1], 0), Ok((Value::new_null(), 4)));
    assert_ne!(Value::new_null(), Value::new_not_set());
    assert_ne!(Value::new_null(), Value::new_normal(vec![]));
}

#[test]
fn length_zero_and_other_negative_lengths_are_refused() {
    assert_eq!(Value::decode(&[0, 0, 0, 0], 0), Err(Error::bad_value()));
    assert_eq!(Value::decode(&[0x80, 0, 0, 0], 0), Err(Error::bad_value()));
    assert_eq!(Value::decode(&[0xff, 0xff, 0xff, 0x00], 0), Err(Error::bad_value()));
}

#[test]
fn positive_length_is_followed_by_the_bytes() {
    assert_eq!(
        Value::decode(&[0, 0, 0, 2, 0xaa, 0xbb, 0xcc], 0),
        Ok((Value { body: vec![0xaa, 0xbb], value_type: ValueType::Normal(2) }, 6))
    );
    assert_eq!(Value::decode(&[0, 0, 0, 2, 0xaa], 0), Err(Error::UnexpectedEof));
    assert_eq!(Value::decode(&[0, 0, 0], 0), Err(Error::UnexpectedEof));
}

#[test]
fn value_wire_forms() {
    assert_eq!(Value::new_normal(vec![b'x']).into_cbytes(), vec![0, 0, 0, 1, b'x']);
    assert_eq!(Value::new_null().into_cbytes(), vec![0xff, 0xff, 0xff, 0xff]);
    assert_eq!(Value::new_not_set().into_cbytes(), vec![0xff, 0xff, 0xff, 0xfe]);
    assert_eq!(Value::new_normal(vec![1, 2, 3]).value_type, ValueType::Normal(3));
}

#[test]
fn value_round_trip_keeps_the_state() {
    for value in [Value::new_normal(vec![1, 2, 3]), Value::new_null(), Value::new_not_set()] {
        let wire = value.into_cbytes();
        assert_eq!(Value::decode(&wire, 0), Ok((value.clone(), wire.len())));
    }
}

#[test]
fn simple_values_wire_form() {
    let values = QueryValues::SimpleValues(vec![Value::new_normal(vec![b'x']), Value::new_null()]);
    assert!(!values.with_names());
    assert_eq!(values.len(), 2);
    assert_eq!(values.into_cbytes(), vec![0, 0, 0, 1, b'x', 0xff, 0xff, 0xff, 0xff]);
}

#[test]
fn named_values_wire_form() {
    let values = QueryValues::NamedValues(vec![
        ("id".to_string(), Value::new_normal(vec![7])),
        ("n".to_string(), Value::new_not_set()),
    ]);
    assert!(values.with_names());
    assert_eq!(values.len(), 2);
    assert_eq!(
        values.into_cbytes(),
        vec![0, 2, b'i', b'd', 0, 0, 0, 1, 7, 0, 1, b'n', 0xff, 0xff, 0xff, 0xfe]
    );
}

#[test]
fn values_decode_reads_exactly_the_count() {
    let wire = [0, 0, 0, 1, 1, 0, 0, 0, 1, 2, 0, 0, 0, 1, 3];
    for n in 0..=3u8 {
        let (values, end) = QueryValues::decode(&wire, 0, n, false).unwrap();
        assert_eq!(values.len(), n as usize);
        assert_eq!(end, 5 * n as usize);
    }
    assert_eq!(QueryValues::decode(&wire, 0, 4, false), Err(Error::UnexpectedEof));
}

#[test]
fn named_values_decode() {
    let wire = [0, 1, b'a', 0, 0, 0, 1, 9, 0, 1, b'b', 0xff, 0xff, 0xff, 0xff];
    assert_eq!(
        QueryValues::decode(&wire, 0, 2, true),
        Ok((
            QueryValues::NamedValues(vec![
                ("a".to_string(), Value::new_normal(vec![9])),
                ("b".to_string(), Value::new_null()),
            ]),
            15
        ))
    );
    assert_eq!(QueryValues::decode(&wire, 0, 3, true), Err(Error::UnexpectedEof));
    assert_eq!(
        QueryValues::decode(&[0, 1, b'a', 0, 0, 0, 0], 0, 1, true),
        Err(Error::bad_value())
    );
    assert_eq!(QueryValues::decode(&[0, 1, 0xff, 0, 0, 0, 0], 0, 1, true), Err(Error::Utf8));
}

#[test]
fn a_name_that_comes_again_takes_the_later_value() {
    let wire = [
        0, 1, b'a', 0, 0, 0, 1, 1, 0, 1, b'b', 0, 0, 0, 1, 2, 0, 1, b'a', 0, 0, 0, 1, 3,
    ];
    assert_eq!(
        QueryValues::decode(&wire, 0, 3, true),
        Ok((
            QueryValues::NamedValues(vec![
                ("a".to_string(), Value::new_normal(vec![3])),
                ("b".to_string(), Value::new_normal(vec![2])),
            ]),
            24
        ))
    );
}

#[test]
fn put_named_replaces_or_appends() {
    let mut list = vec![];
    put_named(&mut list, "a".to_string(), Value::new_null());
    put_named(&mut list, "b".to_string(), Value::new_not_set());
    put_named(&mut list, "a".to_string(), Value::new_normal(vec![5]));
    assert_eq!(
        list,
        vec![
            ("a".to_string(), Value::new_normal(vec![5])),
            ("b".to_string(), Value::new_not_set()),
        ]
    );
}

#[test]
fn consistency_codes() {
    let all = [
        (Consistency::Any, 0u16),
        (Consistency::One, 1),
        (Consistency::Two, 2),
        (Consistency::Three, 3),
        (Consistency::Quorum, 4),
        (Consistency::All, 5),
        (Consistency::LocalQuorum, 6),
        (Consistency::EachQuorum, 7),
        (Consistency::Serial, 8),
        (Consistency::LocalSerial, 9),
        (Consistency::LocalOne, 10),
        (Consistency::Unknown, 99),
    ];
    for (level, code) in all {
        assert_eq!(level.as_short(), code);
        assert_eq!(Consistency::from_short(code), level);
        assert_eq!(level.into_cbytes(), vec![0, code as u8]);
        assert_eq!(Consistency::decode(&[0, code as u8], 0), Ok((level, 2)));
    }
    assert_eq!(Consistency::from_short(11), Consistency::Unknown);
    assert_eq!(Consistency::from_short(0x0100), Consistency::Unknown);
    assert_eq!(Consistency::default(), Consistency::One);
    assert_eq!(Consistency::decode(&[0], 0), Err(Error::UnexpectedEof));
}
