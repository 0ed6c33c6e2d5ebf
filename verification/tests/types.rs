use elio_query::array::VariantArrayBuilder;
use elio_query::bits::Bits;
use elio_query::data_type::{LogicalType, LogicalTypeKind, PhysicalType};
use elio_query::scalar::{equal_datums, integer_text, same_datums, unsigned_text, Datum, ScalarValue, CANONICAL_NAN_BITS};

fn ival(i: i64) -> ScalarValue {
    ScalarValue::Integer(i)
}

fn text(s: &str) -> ScalarValue {
    ScalarValue::String(s.to_string())
}

#[test]
fn physical_types_of_kinds() {
    assert_eq!(LogicalType::physical_type(LogicalTypeKind::Integer), PhysicalType::Variant);
    assert_eq!(LogicalType::physical_type(LogicalTypeKind::Bool), PhysicalType::Bool);
    assert_eq!(LogicalType::physical_type(LogicalTypeKind::Null), PhysicalType::Bool);
    assert_eq!(LogicalType::physical_type(LogicalTypeKind::VirtualNode), PhysicalType::VirtualNode);
    assert_eq!(LogicalType::physical_type(LogicalTypeKind::List), PhysicalType::List);
    assert_eq!(LogicalType::physical_type(LogicalTypeKind::Struct), PhysicalType::Struct);
}

#[test]
fn signatures_of_nested_types() {
    let list = LogicalType::new_list(LogicalType::simple(LogicalTypeKind::Integer));
    assert_eq!(list.signature(), "list(i)");
    let fields = vec![
        ("name".to_string(), LogicalType::simple(LogicalTypeKind::String)),
        ("tags".to_string(), LogicalType::new_list(LogicalType::simple(LogicalTypeKind::Any))),
    ];
    let st = LogicalType::new_struct(fields);
    assert_eq!(st.signature(), "struct(name: s, tags: list(any))");
    assert_eq!(LogicalType::simple(LogicalTypeKind::ZonedDateTime).signature(), "zdt");
}

#[test]
fn display_of_nested_types() {
    let list = LogicalType::new_list(LogicalType::simple(LogicalTypeKind::Integer));
    assert_eq!(list.to_display_string(), "List(Integer)");
    let st = LogicalType::new_struct(vec![("a".to_string(), LogicalType::simple(LogicalTypeKind::Bool))]);
    assert_eq!(st.to_display_string(), "Struct(a: Bool)");
}

#[test]
fn entity_predicates() {
    let node = LogicalType::simple(LogicalTypeKind::Node);
    let rel = LogicalType::simple(LogicalTypeKind::Rel);
    let int_t = LogicalType::simple(LogicalTypeKind::Integer);
    assert!(node.is_node() && node.is_entity() && !node.is_rel());
    assert!(rel.is_rel() && rel.is_entity());
    assert!(!int_t.is_entity() && !int_t.is_list() && !int_t.is_struct());
    let list = LogicalType::new_list(int_t.duplicate());
    assert!(list.is_list());
    assert!(list.as_list().unwrap().same_as(&int_t));
    assert!(int_t.as_list().is_none());
    assert!(int_t.as_struct().is_none());
}

#[test]
fn materialize_turns_virtual_entities_into_entities() {
    let vnode = LogicalType::simple(LogicalTypeKind::VirtualNode);
    let m = vnode.materialize();
    assert_eq!(m.kind, LogicalTypeKind::Node);
    assert_eq!(m.physical_type, PhysicalType::Node);
    let again = m.materialize();
    assert!(again.same_as(&m));
    let vrel = LogicalType::simple(LogicalTypeKind::VirtualRel).materialize();
    assert_eq!(vrel.kind, LogicalTypeKind::Rel);
    let s = LogicalType::simple(LogicalTypeKind::String);
    assert!(s.materialize().same_as(&s));
}

#[test]
fn same_as_compares_nested_types() {
    let a = LogicalType::new_list(LogicalType::simple(LogicalTypeKind::Integer));
    let b = LogicalType::new_list(LogicalType::simple(LogicalTypeKind::Integer));
    let c = LogicalType::new_list(LogicalType::simple(LogicalTypeKind::Float));
    assert!(a.same_as(&b));
    assert!(!a.same_as(&c));
    assert!(a.duplicate().same_as(&a));
}

#[test]
fn integer_and_unsigned_text() {
    assert_eq!(integer_text(0), "0");
    assert_eq!(integer_text(-42), "-42");
    assert_eq!(integer_text(i64::MIN), "-9223372036854775808");
    assert_eq!(integer_text(i64::MAX), "9223372036854775807");
    assert_eq!(unsigned_text(1234567890), "1234567890");
}

#[test]
fn scalar_values_compare_deeply() {
    let a = ScalarValue::List(vec![ival(1), text("x"), ScalarValue::List(vec![ScalarValue::Bool(true)])]);
    let b = a.duplicate();
    assert!(a.same_as(&b));
    let c = ScalarValue::List(vec![ival(1), text("y"), ScalarValue::List(vec![ScalarValue::Bool(true)])]);
    assert!(!a.same_as(&c));
    assert!(!ival(1).same_as(&ScalarValue::Float(1)));
    let r1: Vec<Datum> = vec![Some(ival(1)), None];
    let r2: Vec<Datum> = vec![Some(ival(1)), None];
    let r3: Vec<Datum> = vec![Some(ival(1)), Some(ScalarValue::Unknown)];
    assert!(same_datums(&r1, &r2));
    assert!(!same_datums(&r1, &r3));
}

#[test]
fn bits_round_trip_and_ones() {
    let b = Bits::from_bools(&[true, false, true, true]);
    assert_eq!(b.len(), 4);
    assert_eq!(b.to_bools(), vec![true, false, true, true]);
    assert_eq!(b.iter_ones(), vec![0, 2, 3]);
    assert_eq!(b.get(1), Some(false));
    assert_eq!(b.get(9), None);
    let mut v = Bits::repeat(true, 4);
    v.and_assign(&b);
    assert_eq!(v.to_bools(), vec![true, false, true, true]);
    let mut e = Bits::new();
    e.push(true);
    assert_eq!(e.to_bools(), vec![true]);
}

#[test]
fn variant_array_builder_and_compact() {
    let mut builder = VariantArrayBuilder::with_capacity(4, LogicalType::simple(LogicalTypeKind::Any));
    builder.push(Some(&ival(10)));
    builder.push(None);
    builder.push_n(Some(&text("z")), 2);
    assert_eq!(builder.len(), 4);
    let array = builder.finish();
    assert_eq!(array.len(), 4);
    assert!(array.get(0).unwrap().same_as(&ival(10)));
    assert!(array.get(1).is_none());
    assert!(array.get(3).unwrap().same_as(&text("z")));
    assert!(array.get(4).is_none());
    assert_eq!(array.valid_map().to_bools(), vec![true, false, true, true]);
    let compacted = array.compact(&Bits::from_bools(&[false, true, true, false, false, true]), 3);
    assert_eq!(compacted.len(), 3);
    assert!(compacted.get(0).is_none());
    assert!(compacted.get(1).unwrap().same_as(&text("z")));
    assert!(compacted.get(2).is_none());
    let all = array.compact(&Bits::repeat(true, 4), 4);
    assert_eq!(all.len(), 4);
    assert!(all.get(0).unwrap().same_as(&ival(10)));
    assert!(all.get(1).is_none());
}

#[test]
fn variant_array_valid_map_replacement() {
    let mut builder = VariantArrayBuilder::with_capacity(2, LogicalType::simple(LogicalTypeKind::Any));
    builder.push(Some(&ival(1)));
    builder.push(Some(&ival(2)));
    let mut array = builder.finish();
    array.set_valid_map(Bits::from_bools(&[false, true]));
    assert!(array.get(0).is_none());
    assert!(array.get(1).unwrap().same_as(&ival(2)));
}

#[test]
fn equal_datums_follow_float_equality() {
    let zero = Some(ScalarValue::Float(0.0f64.to_bits()));
    let neg_zero = Some(ScalarValue::Float((-0.0f64).to_bits()));
    let nan = Some(ScalarValue::Float(f64::NAN.to_bits()));
    let other_nan = Some(ScalarValue::Float(0x7FF0_0000_0000_0001u64));
    assert!(equal_datums(&[zero.as_ref().map(|v| v.duplicate())], &[neg_zero]));
    assert!(equal_datums(&[nan], &[other_nan]));
    assert!(!equal_datums(&[zero], &[Some(ScalarValue::Float(1.0f64.to_bits()))]));
    assert!(!equal_datums(&[None], &[Some(ScalarValue::Unknown)]));
    assert!(ScalarValue::Float(0x7FF0_0000_0000_0001u64).canonical().same_as(&ScalarValue::Float(CANONICAL_NAN_BITS)));
    assert!(ScalarValue::Float(f64::INFINITY.to_bits()).canonical().same_as(&ScalarValue::Float(f64::INFINITY.to_bits())));
    let list = ScalarValue::List(vec![ScalarValue::Float((-0.0f64).to_bits()), ival(1)]);
    assert!(list.canonical().same_as(&ScalarValue::List(vec![ScalarValue::Float(0), ival(1)])));
}
