use cql_codec::consistency::Consistency;
use cql_codec::cursor::Cursor;
use cql_codec::error::Error;
use cql_codec::query::{QueryFlags, QueryParams, QueryParamsBuilder, QueryValues};
use cql_codec::types::CBytes;
use cql_codec::value::{Value, ValueType};

fn decode_all(wire: &[u8]) -> QueryParams {
    let mut cursor = Cursor::new(wire);
    let params = QueryParams::from_cursor(&mut cursor).unwrap();
    assert_eq!(cursor.position(), wire.len());
    params
}

fn same_fields(a: &QueryParams, b: &QueryParams) -> bool {
    a.consistency == b.consistency
        && a.values == b.values
        && a.page_size == b.page_size
        && a.paging_state == b.paging_state
        && a.serial_consistency == b.serial_consistency
        && a.timestamp == b.timestamp
}

#[test]
fn two_positional_values_round_trip() {
    let params = QueryParamsBuilder::new()
        .consistency(Consistency::One)
        .values(QueryValues::SimpleValues(vec![Value::new_normal(b"x".to_vec()), Value::new_null()]))
        .finalize();
    let wire = params.into_cbytes();
    assert_eq!(wire[2], 0x01);
    assert_eq!(wire, vec![0, 1, 0x01, 2, 0, 0, 0, 1, b'x', 0xff, 0xff, 0xff, 0xff]);
    let back = decode_all(&wire);
    match &back.values {
        Some(QueryValues::SimpleValues(list)) => {
            assert_eq!(list.len(), 2);
            assert_eq!(list[0], Value { body: b"x".to_vec(), value_type: ValueType::Normal(1) });
            assert_eq!(list[1], Value::new_null());
        }
        other => panic!("unexpected values: {:?}", other),
    }
    assert_eq!(back.consistency, Consistency::One);
    assert_eq!(back.flags, vec![QueryFlags::Value]);
    assert_eq!(back.with_names, Some(false));
    assert_eq!(back.page_size, None);
    assert_eq!(back.paging_state, None);
    assert_eq!(back.serial_consistency, None);
    assert_eq!(back.timestamp, None);
}

#[test]
fn value_count_is_read_in_full() {
    for n in [0usize, 1, 2, 17, 255] {
        let values: Vec<Value> = (0..n).map(|i| Value::new_normal(vec![i as u8, 1])).collect();
        let params = QueryParamsBuilder::new().values(QueryValues::SimpleValues(values.clone())).finalize();
        let wire = params.into_cbytes();
        assert_eq!(wire[3] as usize, n);
        assert_eq!(wire.len(), 4 + 6 * n);
        let back = decode_all(&wire);
        assert_eq!(back.values, Some(QueryValues::SimpleValues(values)));
    }
}

#[test]
fn every_combination_of_optional_fields_round_trips() {
    for mask in 0u8..64 {
        let mut builder = QueryParamsBuilder::new().consistency(Consistency::Quorum);
        if mask & 1 != 0 {
            builder = builder.values(QueryValues::SimpleValues(vec![
                Value::new_normal(vec![1, 2]),
                Value::new_not_set(),
                Value::new_null(),
            ]));
        }
        if mask & 2 != 0 {
            builder = builder.page_size(-5);
        }
        if mask & 4 != 0 {
            builder = builder.paging_state(CBytes::new(vec![9, 8, 7]));
        }
        if mask & 8 != 0 {
            builder = builder.serial_consistency(Consistency::LocalSerial);
        }
        if mask & 16 != 0 {
            builder = builder.timestamp(-1_234_567_890_123);
        }
        if mask & 32 != 0 && mask & 1 == 0 {
            builder = builder.with_names(true);
        }
        if mask & 32 != 0 && mask & 2 != 0 {
            builder = builder.flags(vec![QueryFlags::SkipMetadata]);
        }
        let params = builder.finalize();
        assert_eq!(params.flags_as_byte() & 0x7d, params.implied_byte());
        let wire = params.into_cbytes();
        assert_eq!(wire[2], params.wire_byte());
        assert_eq!(wire[2] & 0x7d, params.implied_byte());
        assert_eq!(wire[2], params.flags_as_byte());
        let expected = (mask & 1) | (mask & 2) << 1 | (mask & 4) << 1 | (mask & 8) << 1 | (mask & 16) << 1;
        assert_eq!(wire[2] & 0x7d, expected);
        let back = decode_all(&wire);
        assert!(same_fields(&params, &back), "mask {}", mask);
        assert_eq!(back.with_names, Some(false));
        assert_eq!(back.flags_as_byte(), wire[2]);
        assert_eq!(back.into_cbytes(), wire);
    }
}

#[test]
fn named_values_round_trip() {
    let values = QueryValues::NamedValues(vec![
        ("first".to_string(), Value::new_normal(vec![1])),
        ("second".to_string(), Value::new_null()),
        ("třetí".to_string(), Value::new_not_set()),
    ]);
    let params = QueryParamsBuilder::new()
        .consistency(Consistency::All)
        .values(values.clone())
        .timestamp(42)
        .finalize();
    assert_eq!(params.with_names, Some(true));
    let wire = params.into_cbytes();
    assert_eq!(wire[2], 0x01 | 0x40 | 0x20);
    let back = decode_all(&wire);
    assert_eq!(back.values, Some(values));
    assert_eq!(back.with_names, Some(true));
    assert_eq!(back.timestamp, Some(42));
    assert_eq!(back.consistency, Consistency::All);
    assert_eq!(
        back.flags,
        vec![QueryFlags::Value, QueryFlags::WithDefaultTimestamp, QueryFlags::WithNamesForValues]
    );
}

#[test]
fn wire_layout_of_each_optional_field() {
    let base = QueryParamsBuilder::new().consistency(Consistency::Two);
    assert_eq!(base.finalize().into_cbytes(), vec![0, 2, 0]);
    assert_eq!(
        QueryParamsBuilder::new().page_size(100).finalize().into_cbytes(),
        vec![0, 1, 0x04, 0, 0, 0, 100]
    );
    assert_eq!(
        QueryParamsBuilder::new().paging_state(CBytes::new(vec![7, 7])).finalize().into_cbytes(),
        vec![0, 1, 0x08, 0, 0, 0, 2, 7, 7]
    );
    assert_eq!(
        QueryParamsBuilder::new().serial_consistency(Consistency::Serial).finalize().into_cbytes(),
        vec![0, 1, 0x10, 0, 8]
    );
    assert_eq!(
        QueryParamsBuilder::new().timestamp(258).finalize().into_cbytes(),
        vec![0, 1, 0x20, 0, 0, 0, 0, 0, 0, 1, 2]
    );
    assert_eq!(
        QueryParamsBuilder::new().timestamp(-1).page_size(1).finalize().into_cbytes(),
        vec![0, 1, 0x24, 0, 0, 0, 1, 0xff, 0xff, 0xff, 0xff, 0xff, 0xff, 0xff, 0xff]
    );
}

#[test]
fn flag_byte_is_worked_out_from_the_fields() {
    let mut params = QueryParams::default();
    params.page_size = Some(10);
    assert_eq!(params.flags_as_byte(), 0);
    assert_eq!(params.into_cbytes(), vec![0, 1, 0x04, 0, 0, 0, 10]);
    let mut stale = QueryParams::default();
    stale.flags = vec![QueryFlags::PageSize, QueryFlags::SkipMetadata];
    stale.with_names = Some(true);
    assert_eq!(stale.flags_as_byte(), 0x06);
    assert_eq!(stale.implied_byte(), 0);
    assert_eq!(stale.wire_byte(), 0x02);
    assert_eq!(stale.into_cbytes(), vec![0, 1, 0x02]);
}

#[test]
fn names_bit_is_written_exactly_where_the_values_are_named() {
    let named = QueryValues::NamedValues(vec![("a".to_string(), Value::new_normal(vec![1]))]);
    for with_names in [None, Some(false), Some(true)] {
        let mut params = QueryParams::default();
        params.values = Some(named.clone());
        params.with_names = with_names;
        let wire = params.into_cbytes();
        assert_eq!(wire[2], 0x41);
        let back = decode_all(&wire);
        assert_eq!(back.values, Some(named.clone()));
        assert_eq!(back.with_names, Some(true));
    }
    let simple = QueryValues::SimpleValues(vec![Value::new_normal(vec![1])]);
    for with_names in [None, Some(false), Some(true)] {
        let mut params = QueryParams::default();
        params.values = Some(simple.clone());
        params.with_names = with_names;
        let wire = params.into_cbytes();
        assert_eq!(wire[2], 0x01);
        let back = decode_all(&wire);
        assert_eq!(back.values, Some(simple.clone()));
        assert_eq!(back.with_names, Some(false));
    }
}

#[test]
fn skip_metadata_flag_is_written_back() {
    let params = decode_all(&[0x00, 0x01, 0x02]);
    assert_eq!(params.flags, vec![QueryFlags::SkipMetadata]);
    assert_eq!(params.into_cbytes(), vec![0x00, 0x01, 0x02]);
    let built = QueryParamsBuilder::new()
        .flags(vec![QueryFlags::SkipMetadata])
        .timestamp(1)
        .values(QueryValues::SimpleValues(vec![]))
        .finalize();
    assert_eq!(built.into_cbytes()[2], 0x23);
    assert_eq!(decode_all(&built.into_cbytes()).flags_as_byte(), 0x23);
}

#[test]
fn decode_records_the_names_flag_without_values() {
    let params = decode_all(&[0, 1, 0x40]);
    assert_eq!(params.with_names, Some(true));
    assert_eq!(params.values, None);
    assert_eq!(params.flags, vec![QueryFlags::WithNamesForValues]);
    let plain = decode_all(&[0, 1, 0x00]);
    assert_eq!(plain.with_names, Some(false));
    assert!(plain.flags.is_empty());
}

#[test]
fn decode_lists_the_skip_metadata_flag() {
    let params = decode_all(&[0, 4, 0x06, 0, 0, 0, 9]);
    assert_eq!(params.consistency, Consistency::Quorum);
    assert_eq!(params.flags, vec![QueryFlags::SkipMetadata, QueryFlags::PageSize]);
    assert_eq!(params.page_size, Some(9));
    assert_eq!(params.into_cbytes(), vec![0, 4, 0x06, 0, 0, 0, 9]);
}

#[test]
fn decode_failures_leave_the_cursor_in_place() {
    let cases: Vec<(Vec<u8>, Error)> = vec![
        (vec![], Error::UnexpectedEof),
        (vec![0, 1], Error::UnexpectedEof),
        (vec![0, 1, 0x01], Error::UnexpectedEof),
        (vec![0, 1, 0x01, 1, 0, 0, 0, 0], Error::bad_value()),
        (vec![0, 1, 0x01, 1, 0xff, 0xff, 0xff, 0xfd], Error::bad_value()),
        (vec![0, 1, 0x04, 0, 0, 0], Error::UnexpectedEof),
        (vec![0, 1, 0x08, 0, 0, 0, 3, 1], Error::UnexpectedEof),
        (vec![0, 1, 0x10, 0], Error::UnexpectedEof),
        (vec![0, 1, 0x20, 0, 0, 0, 0], Error::UnexpectedEof),
        (vec![0, 1, 0x41, 1, 0, 1, 0xff, 0xff, 0xff, 0xff, 0xff], Error::Utf8),
    ];
    for (wire, error) in cases {
        let mut cursor = Cursor::new(&wire);
        assert_eq!(QueryParams::from_cursor(&mut cursor), Err(error));
        assert_eq!(cursor.position(), 0);
    }
}

#[test]
fn from_cursor_starts_at_the_position_and_stops_behind_the_block() {
    let wire = [0xee, 0, 1, 0x04, 0, 0, 0, 5, 0xee, 0xee];
    let mut cursor = Cursor::new(&wire);
    assert!(cursor.set_position(1));
    let params = QueryParams::from_cursor(&mut cursor).unwrap();
    assert_eq!(params.page_size, Some(5));
    assert_eq!(cursor.position(), 8);
    assert_eq!(cursor.remaining(), 2);
    assert_eq!(QueryParams::decode(&wire, 1).map(|(p, end)| (p.page_size, end)), Ok((Some(5), 8)));
}

#[test]
fn flags_and_bytes() {
    let all = [
        (QueryFlags::Value, 0x01u8),
        (QueryFlags::SkipMetadata, 0x02),
        (QueryFlags::PageSize, 0x04),
        (QueryFlags::WithPagingState, 0x08),
        (QueryFlags::WithSerialConsistency, 0x10),
        (QueryFlags::WithDefaultTimestamp, 0x20),
        (QueryFlags::WithNamesForValues, 0x40),
    ];
    for (flag, bit) in all {
        assert_eq!(flag.as_byte(), bit);
        assert_eq!(QueryParams::parse_query_flags(bit), vec![flag]);
    }
    assert!(QueryFlags::has_value(0x01) && !QueryFlags::has_value(0xfe));
    assert!(QueryFlags::has_skip_metadata(0x02) && !QueryFlags::has_skip_metadata(0xfd));
    assert!(QueryFlags::has_page_size(0x04) && !QueryFlags::has_page_size(0xfb));
    assert!(QueryFlags::has_with_paging_state(0x08) && !QueryFlags::has_with_paging_state(0xf7));
    assert!(QueryFlags::has_with_serial_consistency(0x10));
    assert!(!QueryFlags::has_with_serial_consistency(0xef));
    assert!(QueryFlags::has_with_default_timestamp(0x20));
    assert!(!QueryFlags::has_with_default_timestamp(0xdf));
    assert!(QueryFlags::has_with_names_for_values(0x40));
    assert!(!QueryFlags::has_with_names_for_values(0xbf));
    for byte in 0u8..=255 {
        let mut params = QueryParams::default();
        params.flags = QueryParams::parse_query_flags(byte);
        assert_eq!(params.flags_as_byte(), byte & 0x7f);
    }
    assert!(QueryParams::parse_query_flags(0x80).is_empty());
}

#[test]
fn set_values_keeps_flags_and_names_in_step() {
    let mut params = QueryParams::default();
    params.set_values(QueryValues::NamedValues(vec![("a".to_string(), Value::new_null())]));
    assert_eq!(params.flags, vec![QueryFlags::Value, QueryFlags::WithNamesForValues]);
    assert_eq!(params.with_names, Some(true));
    assert_eq!(params.flags_as_byte(), params.implied_byte());
    params.set_values(QueryValues::SimpleValues(vec![Value::new_null()]));
    assert_eq!(params.flags, vec![QueryFlags::Value, QueryFlags::Value]);
    assert_eq!(params.with_names, Some(false));
    assert_eq!(params.values, Some(QueryValues::SimpleValues(vec![Value::new_null()])));
    assert_eq!(params.flags_as_byte(), 0x01);
    assert_eq!(params.flags_as_byte(), params.implied_byte());
    assert_eq!(params.wire_byte(), 0x01);
}
