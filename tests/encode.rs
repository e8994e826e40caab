use cbor_schema::cbor::{push_head, push_uint};
use cbor_schema::descriptor::{
    check_fields, encode_transparent, encode_variant, SchemaError, Shape, TypeDescriptor,
    VariantDescriptor,
};
use cbor_schema::layout::{encode_array, encode_map, max_present_index, present_count};
use cbor_schema::schema::{encode_value, Codec, Encoding, FieldDescriptor, NilRule, Value};

fn field(position_index: usize, wire_index: u32, nil_rule: NilRule) -> FieldDescriptor {
    FieldDescriptor { position_index, wire_index, is_named: true, nil_rule, codec: Codec::Default }
}

fn point_fields() -> Vec<FieldDescriptor> {
    vec![field(0, 0, NilRule::Never), field(1, 1, NilRule::IfNull)]
}

fn record_bytes(t: &TypeDescriptor, vals: &Vec<Value>) -> Vec<u8> {
    let mut out = Vec::new();
    t.encode_record(vals, &mut out);
    out
}

fn union_bytes(t: &TypeDescriptor, case: usize, vals: &Vec<Value>) -> Vec<u8> {
    let mut out = Vec::new();
    t.encode_union(case, vals, &mut out);
    out
}

fn variant(wire_index: u32, fields: Vec<FieldDescriptor>) -> VariantDescriptor {
    VariantDescriptor { wire_index, fields, encoding: None }
}

#[test]
fn point_map_y_absent() {
    let t = TypeDescriptor::record(point_fields(), Encoding::Keyed, false).unwrap();
    let out = record_bytes(&t, &vec![Value::Uint(3), Value::Null]);
    assert_eq!(out, vec![0xa1, 0x00, 0x03]);
}

#[test]
fn point_map_y_present() {
    let t = TypeDescriptor::record(point_fields(), Encoding::Keyed, false).unwrap();
    let out = record_bytes(&t, &vec![Value::Uint(3), Value::Uint(5)]);
    assert_eq!(out, vec![0xa2, 0x00, 0x03, 0x01, 0x05]);
}

#[test]
fn point_array_y_absent() {
    let t = TypeDescriptor::record(point_fields(), Encoding::Array, false).unwrap();
    let out = record_bytes(&t, &vec![Value::Uint(3), Value::Null]);
    assert_eq!(out, vec![0x81, 0x03]);
}

#[test]
fn point_array_y_present() {
    let t = TypeDescriptor::record(point_fields(), Encoding::Array, false).unwrap();
    let out = record_bytes(&t, &vec![Value::Uint(3), Value::Uint(5)]);
    assert_eq!(out, vec![0x82, 0x03, 0x05]);
}

#[test]
fn union_unit_and_tuple_cases() {
    let a = variant(0, vec![]);
    let b = variant(1, vec![FieldDescriptor { is_named: false, ..field(0, 0, NilRule::Never) }]);
    let t = TypeDescriptor::union(vec![a, b], Encoding::Array, false).unwrap();
    assert_eq!(union_bytes(&t, 0, &vec![]), vec![0x82, 0x00, 0x80]);
    assert_eq!(union_bytes(&t, 1, &vec![Value::Uint(7)]), vec![0x82, 0x01, 0x81, 0x07]);
}

#[test]
fn index_only_union_is_bare_index() {
    let t = TypeDescriptor::union(vec![variant(0, vec![]), variant(1, vec![])], Encoding::Array, true)
        .unwrap();
    assert_eq!(union_bytes(&t, 0, &vec![]), vec![0x00]);
    assert_eq!(union_bytes(&t, 1, &vec![]), vec![0x01]);
}

#[test]
fn fieldless_case_in_map_union_has_empty_map() {
    let t = TypeDescriptor::union(vec![variant(4, vec![])], Encoding::Keyed, false).unwrap();
    assert_eq!(union_bytes(&t, 0, &vec![]), vec![0x82, 0x04, 0xa0]);
}

#[test]
fn case_layout_overrides_union_default() {
    let v = VariantDescriptor {
        wire_index: 2,
        fields: vec![field(0, 0, NilRule::Never)],
        encoding: Some(Encoding::Keyed),
    };
    let t = TypeDescriptor::union(vec![v], Encoding::Array, false).unwrap();
    assert_eq!(union_bytes(&t, 0, &vec![Value::Uint(9)]), vec![0x82, 0x02, 0xa1, 0x00, 0x09]);
}

#[test]
fn encode_variant_with_fields_ignores_index_only() {
    let v = variant(3, vec![field(0, 0, NilRule::Never)]);
    let mut out = Vec::new();
    encode_variant(&v, Encoding::Array, true, &vec![Value::Uint(1)], &mut out);
    assert_eq!(out, vec![0x82, 0x03, 0x81, 0x01]);
}

#[test]
fn gap_between_indices_is_null_filled() {
    let ds = vec![field(0, 0, NilRule::Never), field(1, 3, NilRule::Never)];
    let mut out = Vec::new();
    encode_array(&ds, &vec![Value::Uint(1), Value::Uint(2)], &mut out);
    assert_eq!(out, vec![0x84, 0x01, 0xf6, 0xf6, 0x02]);
}

#[test]
fn first_field_at_index_two_has_two_leading_nulls() {
    let ds = vec![field(0, 2, NilRule::Never)];
    let mut out = Vec::new();
    encode_array(&ds, &vec![Value::Uint(8)], &mut out);
    assert_eq!(out, vec![0x83, 0xf6, 0xf6, 0x08]);
}

#[test]
fn trailing_nil_fields_are_truncated() {
    let ds = vec![
        field(0, 0, NilRule::IfNull),
        field(1, 1, NilRule::IfNull),
        field(2, 2, NilRule::IfNull),
        field(3, 5, NilRule::IfNull),
    ];
    let vals = vec![Value::Null, Value::Uint(4), Value::Null, Value::Null];
    assert_eq!(max_present_index(&ds, &vals), Some(1));
    let mut out = Vec::new();
    encode_array(&ds, &vals, &mut out);
    assert_eq!(out, vec![0x82, 0xf6, 0x04]);
}

#[test]
fn all_nil_array_is_empty() {
    let ds = vec![field(0, 0, NilRule::IfNull), field(1, 7, NilRule::IfNull)];
    let vals = vec![Value::Null, Value::Null];
    assert_eq!(max_present_index(&ds, &vals), None);
    let mut out = Vec::new();
    encode_array(&ds, &vals, &mut out);
    assert_eq!(out, vec![0x80]);
}

#[test]
fn map_skips_nil_fields() {
    let ds = vec![
        field(0, 1, NilRule::IfNull),
        field(1, 2, NilRule::IfNull),
        field(2, 30, NilRule::IfNull),
    ];
    let vals = vec![Value::Null, Value::Uint(6), Value::Null];
    assert_eq!(present_count(&ds, &vals), 1);
    let mut out = Vec::new();
    encode_map(&ds, &vals, &mut out);
    assert_eq!(out, vec![0xa1, 0x02, 0x06]);
}

#[test]
fn map_with_large_wire_index() {
    let ds = vec![field(0, 30, NilRule::Never)];
    let mut out = Vec::new();
    encode_map(&ds, &vec![Value::Uint(0)], &mut out);
    assert_eq!(out, vec![0xa1, 0x18, 0x1e, 0x00]);
}

#[test]
fn never_nil_field_with_null_value_is_present() {
    let ds = vec![field(0, 0, NilRule::Never)];
    let vals = vec![Value::Null];
    assert_eq!(present_count(&ds, &vals), 1);
    let mut out = Vec::new();
    encode_map(&ds, &vals, &mut out);
    assert_eq!(out, vec![0xa1, 0x00, 0xf6]);
}

#[test]
fn positions_select_values() {
    // wire order differs from declaration order
    let ds = vec![field(1, 0, NilRule::Never), field(0, 1, NilRule::Never)];
    let mut out = Vec::new();
    encode_array(&ds, &vec![Value::Uint(10), Value::Uint(20)], &mut out);
    assert_eq!(out, vec![0x82, 0x14, 0x0a]);
}

#[test]
fn transparent_wrapper_matches_inner_value() {
    let t = TypeDescriptor::record(vec![field(0, 0, NilRule::Never)], Encoding::Array, true)
        .unwrap();
    let v = Value::Uint(500);
    let mut direct = Vec::new();
    encode_value(&v, &mut direct);
    assert_eq!(record_bytes(&t, &vec![v]), direct);
    assert_eq!(direct, vec![0x19, 0x01, 0xf4]);
}

#[test]
fn transparent_uses_custom_codec() {
    let d = FieldDescriptor { codec: Codec::Tagged(1), ..field(0, 0, NilRule::Never) };
    let mut out = Vec::new();
    encode_transparent(&d, &vec![Value::Uint(2)], &mut out);
    assert_eq!(out, vec![0xc1, 0x02]);
}

#[test]
fn tagged_codec_in_map() {
    let d = FieldDescriptor { codec: Codec::Tagged(32), ..field(0, 0, NilRule::Never) };
    let mut out = Vec::new();
    encode_map(&vec![d], &vec![Value::Bytes(vec![1, 2])], &mut out);
    assert_eq!(out, vec![0xa1, 0x00, 0xd8, 0x20, 0x42, 0x01, 0x02]);
}

#[test]
fn nested_record_as_encoded_value() {
    let inner = TypeDescriptor::record(point_fields(), Encoding::Array, false).unwrap();
    let inner_bytes = record_bytes(&inner, &vec![Value::Uint(1), Value::Uint(2)]);
    let outer = TypeDescriptor::record(vec![field(0, 0, NilRule::Never)], Encoding::Keyed, false)
        .unwrap();
    let out = record_bytes(&outer, &vec![Value::Encoded(inner_bytes)]);
    assert_eq!(out, vec![0xa1, 0x00, 0x82, 0x01, 0x02]);
}

#[test]
fn value_encodings() {
    let mut out = Vec::new();
    encode_value(&Value::Null, &mut out);
    encode_value(&Value::Bytes(vec![]), &mut out);
    encode_value(&Value::Bytes(vec![7, 8, 9]), &mut out);
    encode_value(&Value::Encoded(vec![0xf5]), &mut out);
    assert_eq!(out, vec![0xf6, 0x40, 0x43, 7, 8, 9, 0xf5]);
}

#[test]
fn uint_heads_use_shortest_form() {
    let cases: Vec<(u64, Vec<u8>)> = vec![
        (0, vec![0x00]),
        (23, vec![0x17]),
        (24, vec![0x18, 0x18]),
        (255, vec![0x18, 0xff]),
        (256, vec![0x19, 0x01, 0x00]),
        (65535, vec![0x19, 0xff, 0xff]),
        (65536, vec![0x1a, 0x00, 0x01, 0x00, 0x00]),
        (4294967295, vec![0x1a, 0xff, 0xff, 0xff, 0xff]),
        (4294967296, vec![0x1b, 0x00, 0x00, 0x00, 0x01, 0x00, 0x00, 0x00, 0x00]),
        (u64::MAX, vec![0x1b, 0xff, 0xff, 0xff, 0xff, 0xff, 0xff, 0xff, 0xff]),
    ];
    for (n, expected) in cases {
        let mut out = Vec::new();
        push_uint(&mut out, n);
        assert_eq!(out, expected);
    }
}

#[test]
fn container_heads() {
    let mut out = Vec::new();
    push_head(&mut out, 4, 25);
    push_head(&mut out, 5, 1000);
    assert_eq!(out, vec![0x98, 0x19, 0xb9, 0x03, 0xe8]);
}

#[test]
fn long_array_header() {
    let ds = vec![field(0, 0, NilRule::Never), field(1, 24, NilRule::Never)];
    let mut out = Vec::new();
    encode_array(&ds, &vec![Value::Uint(1), Value::Uint(2)], &mut out);
    let mut expected = vec![0x98, 0x19, 0x01];
    expected.extend(vec![0xf6; 23]);
    expected.push(0x02);
    assert_eq!(out, expected);
}

#[test]
fn schema_errors() {
    assert_eq!(
        TypeDescriptor::record(point_fields(), Encoding::Array, true),
        Err(SchemaError::TransparentFieldCount)
    );
    assert_eq!(
        TypeDescriptor::record(vec![], Encoding::Array, true),
        Err(SchemaError::TransparentFieldCount)
    );
    assert_eq!(
        TypeDescriptor::union(vec![], Encoding::Array, false),
        Err(SchemaError::NoVariants)
    );
    assert_eq!(
        TypeDescriptor::union(
            vec![variant(0, vec![]), variant(1, vec![field(0, 0, NilRule::Never)])],
            Encoding::Array,
            true
        ),
        Err(SchemaError::IndexOnlyWithFields)
    );
    let unordered = vec![field(0, 1, NilRule::Never), field(1, 1, NilRule::Never)];
    assert_eq!(check_fields(&unordered), Err(SchemaError::UnorderedFields));
    assert_eq!(
        TypeDescriptor::record(unordered, Encoding::Keyed, false),
        Err(SchemaError::UnorderedFields)
    );
    let bad_position = vec![field(2, 0, NilRule::Never), field(1, 1, NilRule::Never)];
    assert_eq!(check_fields(&bad_position), Err(SchemaError::PositionOutOfRange));
    assert_eq!(
        TypeDescriptor::union(vec![variant(0, bad_position)], Encoding::Array, false),
        Err(SchemaError::PositionOutOfRange)
    );
}

#[test]
fn valid_schemas_are_accepted() {
    assert_eq!(check_fields(&point_fields()), Ok(()));
    let t = TypeDescriptor::record(point_fields(), Encoding::Keyed, false).unwrap();
    assert_eq!(t.shape, Shape::Record(point_fields()));
    assert!(!t.transparent);
    let u = TypeDescriptor::union(vec![variant(0, vec![])], Encoding::Keyed, true).unwrap();
    assert_eq!(u.shape, Shape::Union { variants: vec![variant(0, vec![])], index_only: true });
}
