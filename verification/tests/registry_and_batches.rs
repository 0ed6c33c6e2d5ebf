use elio_query::bits::Bits;
use elio_query::data_type::{LogicalType, LogicalTypeKind};
use elio_query::execution::error::EvalError;
use elio_query::function::agg::{finish_float_sum, AggFunctionKind, AggFunctionState, AggUpdate, NumberBits};
use elio_query::function::builtin::{default_agg_registry, default_scalar_registry};
use elio_query::function::list::{list_index, list_index_batch, list_slice, list_slice_batch};
use elio_query::function::logic::{
    bool_and_batch, bool_is_not_null_batch, bool_is_null_batch, bool_not_batch, bool_or_batch, bool_xor_batch,
    do_compare, AnyEqBatch, AnyLtBatch, CompareOp, ValueOrder,
};
use elio_query::function::sig::{matches_type, matches_with_null_coercion, signature_matches};
use elio_query::function::{FunctionCatalog, FunctionCatalogEntry, ScalarFunctionKind, ScalarFunctionSet};
use elio_query::scalar::{Datum, ScalarValue};

fn ival(i: i64) -> ScalarValue {
    ScalarValue::Integer(i)
}

fn ty(kind: LogicalTypeKind) -> LogicalType {
    LogicalType::simple(kind)
}

fn order_ints(a: &ScalarValue, b: &ScalarValue) -> Option<ValueOrder> {
    match (a, b) {
        (ScalarValue::Integer(x), ScalarValue::Integer(y)) => Some(if x < y {
            ValueOrder::Less
        } else if x == y {
            ValueOrder::Equal
        } else {
            ValueOrder::Greater
        }),
        _ => None,
    }
}

#[test]
fn default_registry_lookup_is_case_insensitive() {
    let reg = default_scalar_registry();
    let add = reg.get_function("ADD").expect("add is registered");
    assert_eq!(add.name, "add");
    assert_eq!(add.functions.len(), 1);
    assert_eq!(add.functions[0].execute, ScalarFunctionKind::Add);
    let conv = reg.get_function("toBoolean").expect("toboolean is registered");
    assert_eq!(conv.functions.len(), 2);
    assert_eq!(conv.functions[0].execute, ScalarFunctionKind::BooleanToBoolean);
    assert_eq!(conv.functions[1].execute, ScalarFunctionKind::AnyToBoolean);
    assert!(reg.get_function("no_such_function").is_none());
}

#[test]
fn default_registry_and_or_eq() {
    let reg = default_scalar_registry();
    let and = reg.get_and_function();
    assert_eq!(and.name, "and");
    assert_eq!(and.execute, ScalarFunctionKind::And);
    assert_eq!(and.arguments.len(), 2);
    assert!(and.return_type.same_as(&ty(LogicalTypeKind::Bool)));
    assert_eq!(reg.get_or_function().execute, ScalarFunctionKind::Or);
    let eq = reg.get_eq_function();
    assert_eq!(eq.execute, ScalarFunctionKind::Eq);
    assert!(eq.arguments[0].same_as(&ty(LogicalTypeKind::Any)));
}

#[test]
fn registry_insert_replaces_a_set() {
    let mut reg = default_scalar_registry();
    let mut set = ScalarFunctionSet::new("add");
    let and = reg.get_and_function();
    set.add_function(and);
    reg.insert(set);
    let add = reg.get_function("add").unwrap();
    assert_eq!(add.functions.len(), 1);
    assert_eq!(add.functions[0].execute, ScalarFunctionKind::And);
    assert_eq!(reg.get_function("subtract").unwrap().functions[0].execute, ScalarFunctionKind::Subtract);
}

#[test]
fn agg_registry_and_catalog() {
    let catalog = FunctionCatalog { scalar_functions: default_scalar_registry(), agg_functions: default_agg_registry() };
    match catalog.get_function_by_name("Count") {
        Some(FunctionCatalogEntry::Agg(set)) => {
            assert_eq!(set.name, "count");
            assert_eq!(set.functions.len(), 2);
            assert_eq!(set.functions[0].execute, AggFunctionKind::Count);
            assert_eq!(set.functions[1].execute, AggFunctionKind::CountStar);
            assert_eq!(set.functions[1].arguments.len(), 0);
        },
        _ => panic!("count is an aggregate"),
    }
    match catalog.get_function_by_name("not") {
        Some(FunctionCatalogEntry::Scalar(set)) => assert_eq!(set.functions[0].execute, ScalarFunctionKind::Not),
        _ => panic!("not is a scalar function"),
    }
    assert!(catalog.get_function_by_name("avg").is_none());
}

#[test]
fn signature_matching() {
    let any = ty(LogicalTypeKind::Any);
    let int_t = ty(LogicalTypeKind::Integer);
    let list_int = LogicalType::new_list(int_t.duplicate());
    let list_any = LogicalType::new_list(any.duplicate());
    assert!(matches_type(&int_t, &any));
    assert!(matches_type(&list_int, &list_any));
    assert!(!matches_type(&int_t, &list_any));
    assert!(!matches_type(&ty(LogicalTypeKind::String), &int_t));
    let args = vec![list_any.duplicate(), int_t.duplicate()];
    let ret = signature_matches(&args, &any, &vec![list_int.duplicate(), int_t.duplicate()]).unwrap();
    assert!(ret.same_as(&any));
    assert!(signature_matches(&args, &any, &vec![list_int.duplicate()]).is_none());
    assert!(signature_matches(&args, &any, &vec![int_t.duplicate(), int_t.duplicate()]).is_none());
}

#[test]
fn untyped_nulls_take_declared_types() {
    let bool_t = ty(LogicalTypeKind::Bool);
    let args = vec![bool_t.duplicate(), bool_t.duplicate()];
    let provided = vec![ty(LogicalTypeKind::Null), bool_t.duplicate()];
    let (ret, coerced) = matches_with_null_coercion(&args, &bool_t, &provided, &vec![true, false]).unwrap();
    assert!(ret.same_as(&bool_t));
    assert!(coerced[0].same_as(&bool_t) && coerced[1].same_as(&bool_t));
    assert!(matches_with_null_coercion(&args, &bool_t, &provided, &vec![false, false]).is_none());
    assert!(matches_with_null_coercion(&args, &bool_t, &provided, &vec![true]).is_none());
}

#[test]
fn three_valued_logic() {
    let t = Some(true);
    let f = Some(false);
    let n: Option<bool> = None;
    let lhs = [t, t, f, n, n];
    let rhs = [t, f, f, t, n];
    assert_eq!(bool_and_batch(&lhs, &rhs), vec![t, f, f, n, n]);
    assert_eq!(bool_or_batch(&lhs, &rhs), vec![t, t, f, t, n]);
    assert_eq!(bool_or_batch(&[f, n, n], &[n, f, t]), vec![n, n, t]);
    assert_eq!(bool_xor_batch(&lhs, &rhs), vec![f, t, f, n, n]);
    assert_eq!(bool_not_batch(&lhs), vec![f, f, t, n, n]);
    assert_eq!(bool_is_null_batch(&lhs), vec![f, f, f, t, t]);
    assert_eq!(bool_is_not_null_batch(&lhs), vec![t, t, t, f, f]);
}

#[test]
fn comparisons_over_columns() {
    let lhs: Vec<Datum> = vec![Some(ival(1)), Some(ival(2)), None, Some(ival(3)), Some(ScalarValue::Bool(true))];
    let rhs: Vec<Datum> = vec![Some(ival(1)), Some(ival(5)), Some(ival(0)), Some(ival(3)), Some(ival(1))];
    let vis = Bits::from_bools(&[true, true, true, false, true]);
    let eq = AnyEqBatch.execute(&lhs, &rhs, &vis, 5, order_ints);
    assert_eq!(eq, vec![Some(true), Some(false), None, None, Some(false)]);
    let lt = AnyLtBatch.execute(&lhs, &rhs, &vis, 5, order_ints);
    assert_eq!(lt, vec![Some(false), Some(true), None, None, None]);
    let ne = do_compare(&lhs, &rhs, &vis, 5, CompareOp::NotEq, order_ints);
    assert_eq!(ne, vec![Some(false), Some(true), None, None, Some(true)]);
    let ge = do_compare(&lhs, &rhs, &vis, 5, CompareOp::GtEq, order_ints);
    assert_eq!(ge, vec![Some(true), Some(false), None, None, None]);
}

#[test]
fn list_index_counts_from_either_end() {
    let items = vec![ival(10), ival(20), ival(30)];
    assert!(list_index(&items, 0).unwrap().same_as(&ival(10)));
    assert!(list_index(&items, -1).unwrap().same_as(&ival(30)));
    assert!(list_index(&items, -3).unwrap().same_as(&ival(10)));
    assert!(list_index(&items, 3).is_none());
    assert!(list_index(&items, -4).is_none());
}

fn ints(v: &[ScalarValue]) -> Vec<i64> {
    v.iter()
        .map(|x| match x {
            ScalarValue::Integer(i) => *i,
            _ => panic!("expected integers"),
        })
        .collect()
}

#[test]
fn list_slice_clamps_bounds() {
    let items = vec![ival(1), ival(2), ival(3), ival(4)];
    assert_eq!(ints(&list_slice(&items, Some(1), Some(3))), vec![2, 3]);
    assert_eq!(ints(&list_slice(&items, None, Some(-1))), vec![1, 2, 3]);
    assert_eq!(ints(&list_slice(&items, Some(-2), None)), vec![3, 4]);
    assert_eq!(ints(&list_slice(&items, Some(-10), Some(10))), vec![1, 2, 3, 4]);
    assert_eq!(ints(&list_slice(&items, Some(3), Some(1))), Vec::<i64>::new());
}

#[test]
fn list_batches() {
    let list = || Some(ScalarValue::List(vec![ival(1), ival(2), ival(3)]));
    let lists: Vec<Datum> = vec![list(), list(), None, list()];
    let idx: Vec<Datum> = vec![Some(ival(1)), Some(ival(-1)), Some(ival(0)), Some(ival(0))];
    let vis = Bits::from_bools(&[true, true, true, false]);
    let out = list_index_batch(&lists, &idx, &vis, 4).ok().unwrap();
    assert!(out[0].as_ref().unwrap().same_as(&ival(2)));
    assert!(out[1].as_ref().unwrap().same_as(&ival(3)));
    assert!(out[2].is_none() && out[3].is_none());
    let bad: Vec<Datum> = vec![Some(ScalarValue::Bool(true))];
    assert!(matches!(list_index_batch(&bad, &idx[..1], &Bits::repeat(true, 1), 1), Err(EvalError::TypeError(_))));
    let bad_idx: Vec<Datum> = vec![Some(ScalarValue::String("x".to_string()))];
    assert!(matches!(list_index_batch(&lists[..1], &bad_idx, &Bits::repeat(true, 1), 1), Err(EvalError::TypeError(_))));
    let starts: Vec<Datum> = vec![Some(ival(1))];
    let ends: Vec<Datum> = vec![Some(ival(3))];
    let sliced = list_slice_batch(&lists[..1], &starts, &ends, &Bits::repeat(true, 1), 1).ok().unwrap();
    match &sliced[0] {
        Some(ScalarValue::List(items)) => assert_eq!(ints(items), vec![2, 3]),
        _ => panic!("expected a list"),
    }
}

fn done(r: Result<AggUpdate, EvalError>) -> AggUpdate {
    match r {
        Ok(u) => u,
        Err(_) => panic!("update failed"),
    }
}

#[test]
fn count_ignores_nulls_and_count_star_does_not() {
    let count = AggFunctionKind::Count;
    let mut state = count.create_state();
    for d in [Some(ival(1)), None, Some(ScalarValue::Unknown), Some(ScalarValue::Bool(false))] {
        assert_eq!(done(count.update_state(&mut state, &[d])), AggUpdate::Done);
    }
    assert!(count.extract_value(&mut state).unwrap().same_as(&ival(2)));
    let star = AggFunctionKind::CountStar;
    let mut state = star.create_state();
    for _ in 0..3 {
        done(star.update_state(&mut state, &[]));
    }
    assert!(star.extract_value(&mut state).unwrap().same_as(&ival(3)));
}

#[test]
fn sum_of_integers_and_overflow() {
    let sum = AggFunctionKind::Sum;
    let mut state = sum.create_state();
    done(sum.update_state(&mut state, &[Some(ival(5))]));
    done(sum.update_state(&mut state, &[None]));
    done(sum.update_state(&mut state, &[Some(ival(-2))]));
    assert!(sum.extract_value(&mut state).unwrap().same_as(&ival(3)));
    let mut state = sum.create_state();
    done(sum.update_state(&mut state, &[Some(ival(i64::MAX))]));
    match sum.update_state(&mut state, &[Some(ival(1))]) {
        Err(EvalError::ArithmeticOverflow { op, args }) => {
            assert_eq!(op, "sum");
            assert_eq!(args, vec!["9223372036854775807".to_string(), "1".to_string()]);
        },
        _ => panic!("expected an overflow"),
    }
}

#[test]
fn sum_with_a_float_asks_for_a_float_addition() {
    let sum = AggFunctionKind::Sum;
    let mut state = sum.create_state();
    done(sum.update_state(&mut state, &[Some(ival(2))]));
    let half = 0.5f64.to_bits();
    match done(sum.update_state(&mut state, &[Some(ScalarValue::Float(half))])) {
        AggUpdate::FloatSum { acc, value } => {
            assert_eq!(acc, NumberBits::Integer(2));
            assert_eq!(value, NumberBits::Float(half));
            finish_float_sum(&mut state, 2.5f64.to_bits());
        },
        AggUpdate::Done => panic!("expected a float request"),
    }
    assert!(sum.extract_value(&mut state).unwrap().same_as(&ScalarValue::Float(2.5f64.to_bits())));
    assert!(matches!(sum.update_state(&mut state, &[Some(ScalarValue::Bool(true))]), Err(EvalError::TypeError(_))));
}

#[test]
fn collect_keeps_non_null_values_in_order() {
    let collect = AggFunctionKind::Collect;
    let mut state = collect.create_state();
    for d in [Some(ival(3)), None, Some(ScalarValue::Unknown), Some(ival(1))] {
        done(collect.update_state(&mut state, &[d]));
    }
    match collect.extract_value(&mut state) {
        Some(ScalarValue::List(items)) => assert_eq!(ints(&items), vec![3, 1]),
        _ => panic!("expected a list"),
    }
    match &state {
        AggFunctionState::Collect(c) => assert!(c.values.is_empty()),
        _ => panic!("collect keeps a collect state"),
    }
    assert!(matches!(
        AggFunctionKind::Count.update_state(&mut state, &[Some(ival(1))]),
        Err(EvalError::TypeError(_))
    ));
}
