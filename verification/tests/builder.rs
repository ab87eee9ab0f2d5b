use cql_codec::consistency::Consistency;
use cql_codec::query::{QueryFlags, QueryParams, QueryParamsBuilder, QueryValues};
use cql_codec::types::CBytes;
use cql_codec::value::Value;

#[test]
fn new_builder_has_consistency_one_and_nothing_else() {
    let params = QueryParamsBuilder::new().finalize();
    assert_eq!(params, QueryParams::default());
    assert_eq!(params.consistency, Consistency::One);
    assert!(params.flags.is_empty());
    assert_eq!(params.with_names, None);
    assert_eq!(params.values, None);
    assert_eq!(params.page_size, None);
    assert_eq!(params.paging_state, None);
    assert_eq!(params.serial_consistency, None);
    assert_eq!(params.timestamp, None);
    assert_eq!(QueryParamsBuilder::default().finalize(), params);
}

#[test]
fn each_setter_stores_its_field_and_raises_its_flag() {
    let p = QueryParamsBuilder::new().consistency(Consistency::Three).finalize();
    assert_eq!(p.consistency, Consistency::Three);
    assert!(p.flags.is_empty());

    let p = QueryParamsBuilder::new().page_size(500).finalize();
    assert_eq!(p.page_size, Some(500));
    assert_eq!(p.flags, vec![QueryFlags::PageSize]);

    let p = QueryParamsBuilder::new().paging_state(CBytes::new(vec![1])).finalize();
    assert_eq!(p.paging_state, Some(CBytes::new(vec![1])));
    assert_eq!(p.flags, vec![QueryFlags::WithPagingState]);

    let p = QueryParamsBuilder::new().serial_consistency(Consistency::Serial).finalize();
    assert_eq!(p.serial_consistency, Some(Consistency::Serial));
    assert_eq!(p.flags, vec![QueryFlags::WithSerialConsistency]);

    let p = QueryParamsBuilder::new().timestamp(77).finalize();
    assert_eq!(p.timestamp, Some(77));
    assert_eq!(p.flags, vec![QueryFlags::WithDefaultTimestamp]);

    let p = QueryParamsBuilder::new().with_names(true).finalize();
    assert_eq!(p.with_names, Some(true));
    assert!(p.flags.is_empty());

    let p = QueryParamsBuilder::new().with_names(false).finalize();
    assert_eq!(p.with_names, Some(false));
    assert!(p.flags.is_empty());
}

#[test]
fn values_set_with_names_after_their_shape() {
    let simple = QueryValues::SimpleValues(vec![Value::new_null()]);
    let p = QueryParamsBuilder::new().values(simple.clone()).finalize();
    assert_eq!(p.values, Some(simple.clone()));
    assert_eq!(p.with_names, Some(false));
    assert_eq!(p.flags, vec![QueryFlags::Value]);

    let named = QueryValues::NamedValues(vec![("k".to_string(), Value::new_null())]);
    let p = QueryParamsBuilder::new().values(named.clone()).finalize();
    assert_eq!(p.values, Some(named.clone()));
    assert_eq!(p.with_names, Some(true));
    assert_eq!(p.flags, vec![QueryFlags::Value, QueryFlags::WithNamesForValues]);

    let p = QueryParamsBuilder::new().page_size(1).values(named).values(simple).finalize();
    assert_eq!(p.with_names, Some(false));
    assert_eq!(p.flags, vec![QueryFlags::PageSize, QueryFlags::Value, QueryFlags::Value]);
    assert_eq!(p.flags_as_byte(), 0x05);
    assert_eq!(p.flags_as_byte(), p.implied_byte());
}

#[test]
fn order_of_the_setters_does_not_change_the_flag_byte() {
    let a = QueryParamsBuilder::new()
        .timestamp(1)
        .page_size(2)
        .serial_consistency(Consistency::Serial)
        .paging_state(CBytes::new(vec![3]))
        .values(QueryValues::SimpleValues(vec![]))
        .finalize();
    let b = QueryParamsBuilder::new()
        .values(QueryValues::SimpleValues(vec![]))
        .paging_state(CBytes::new(vec![3]))
        .serial_consistency(Consistency::Serial)
        .page_size(2)
        .timestamp(1)
        .finalize();
    assert_eq!(a.flags_as_byte(), 0x3d);
    assert_eq!(a.flags_as_byte(), b.flags_as_byte());
    assert_eq!(a.into_cbytes(), b.into_cbytes());
    assert_eq!(a.implied_byte(), 0x3d);
}

#[test]
fn setting_a_field_twice_keeps_the_flag_byte() {
    let p = QueryParamsBuilder::new().page_size(1).page_size(2).with_names(true).with_names(false).finalize();
    assert_eq!(p.page_size, Some(2));
    assert_eq!(p.with_names, Some(false));
    assert_eq!(p.flags, vec![QueryFlags::PageSize, QueryFlags::PageSize]);
    assert_eq!(p.flags_as_byte(), p.implied_byte());
}

#[test]
fn flags_keep_the_flag_of_every_given_field() {
    let p = QueryParamsBuilder::new().page_size(10).flags(vec![QueryFlags::SkipMetadata]).finalize();
    assert_eq!(p.page_size, Some(10));
    assert_eq!(p.flags, vec![QueryFlags::SkipMetadata, QueryFlags::PageSize]);
    assert_eq!(p.flags_as_byte(), 0x06);
    assert_eq!(p.flags_as_byte() & 0x7d, p.implied_byte());
    assert_eq!(p.into_cbytes(), vec![0, 1, 0x06, 0, 0, 0, 10]);

    let q = QueryParamsBuilder::new().flags(vec![QueryFlags::SkipMetadata]).page_size(3).finalize();
    assert_eq!(q.flags, vec![QueryFlags::SkipMetadata, QueryFlags::PageSize]);
    assert_eq!(q.flags_as_byte(), 0x06);
}

#[test]
fn flags_cannot_raise_the_flag_of_a_field_that_is_not_given() {
    let p = QueryParamsBuilder::new()
        .timestamp(5)
        .flags(vec![QueryFlags::PageSize, QueryFlags::WithNamesForValues, QueryFlags::Value])
        .finalize();
    assert_eq!(p.flags, vec![QueryFlags::WithDefaultTimestamp]);
    assert_eq!(p.page_size, None);
    assert_eq!(p.flags_as_byte(), p.implied_byte());

    let q = QueryParamsBuilder::new()
        .flags(vec![QueryFlags::SkipMetadata, QueryFlags::SkipMetadata])
        .flags(vec![])
        .finalize();
    assert!(q.flags.is_empty());
}

#[test]
fn names_flag_goes_by_the_shape_of_the_values() {
    let named = QueryValues::NamedValues(vec![("k".to_string(), Value::new_null())]);
    let p = QueryParamsBuilder::new().values(named.clone()).with_names(false).finalize();
    assert_eq!(p.with_names, Some(false));
    assert_eq!(p.flags, vec![QueryFlags::Value, QueryFlags::WithNamesForValues]);
    assert_eq!(p.flags_as_byte(), 0x41);
    assert_eq!(p.implied_byte(), 0x41);
    assert_eq!(p.into_cbytes()[2], 0x41);

    let p = QueryParamsBuilder::new().with_names(true).values(named).finalize();
    assert_eq!(p.flags_as_byte(), 0x41);
    let simple = QueryValues::SimpleValues(vec![Value::new_null()]);
    let p = QueryParamsBuilder::new().values(simple).with_names(true).finalize();
    assert_eq!(p.with_names, Some(true));
    assert_eq!(p.flags_as_byte(), 0x01);
    assert_eq!(p.into_cbytes(), vec![0, 1, 0x01, 1, 0xff, 0xff, 0xff, 0xff]);
}
