use elio_query::bits::Bits;
use elio_query::catalog::ConstraintKind;
use elio_query::data_type::{LogicalType, LogicalTypeKind};
use elio_query::execution::ddl::{
    build_index, extract_node_properties, CreateConstraintExecutor, DropConstraintExecutor, NodeRecord, PropertyResult,
};
use elio_query::execution::error::{EvalError, ExecError};
use elio_query::execution::expr::{build_constant, build_variable, BuildError, BuildExprContext, ConstantExpr, VariableRefExpr};
use elio_query::execution::hash_aggregate::{row_key, row_values, GroupingSet, OutputColumnSource};
use elio_query::execution::operators::{
    apply_filter, compact_rows, create_list_batch, cross_product, distinct_rows, to_filter_mask, DistinctState,
};
use elio_query::execution::pagination::{PageAction, PaginationState};
use elio_query::execution::profile::OperatorMetrics;
use elio_query::execution::unwind::{unwind_rows, unwind_values};
use elio_query::function::agg::{AggFunctionKind, AggUpdate, NumberBits};
use elio_query::plan::expr::{Constant, Schema, Variable, VariableRef};
use elio_query::scalar::{same_datums, Datum, ScalarValue};

fn ival(i: i64) -> ScalarValue {
    ScalarValue::Integer(i)
}

fn text(s: &str) -> ScalarValue {
    ScalarValue::String(s.to_string())
}

fn d(i: i64) -> Datum {
    Some(ival(i))
}

fn rows_eq(a: &[Vec<Datum>], b: &[Vec<Datum>]) -> bool {
    a.len() == b.len() && a.iter().zip(b.iter()).all(|(x, y)| same_datums(x, y))
}

#[test]
fn filter_keeps_true_rows_only() {
    let mask = to_filter_mask(&[Some(true), Some(false), None, Some(true)]);
    assert_eq!(mask.to_bools(), vec![true, false, false, true]);
    let mut vis = Bits::from_bools(&[true, true, true, false]);
    apply_filter(&mut vis, &[Some(true), Some(true), None, Some(true)]);
    assert_eq!(vis.to_bools(), vec![true, true, false, false]);
}

#[test]
fn compact_rows_keeps_visible_rows() {
    let columns = vec![vec![d(1), d(2), d(3)], vec![Some(text("a")), None, Some(text("c"))]];
    let vis = Bits::from_bools(&[true, false, true]);
    let rows = compact_rows(&columns, &vis);
    assert!(rows_eq(&rows, &[vec![d(1), Some(text("a"))], vec![d(3), Some(text("c"))]]));
}

#[test]
fn distinct_lets_each_row_through_once() {
    let mut state = DistinctState::new();
    let columns = vec![vec![d(1), d(2), d(1), None, None]];
    let out = distinct_rows(&mut state, &columns, &Bits::repeat(true, 5));
    assert!(rows_eq(&out, &[vec![d(1)], vec![d(2)], vec![None]]));
    let next = vec![vec![d(2), d(3), d(4)]];
    let out = distinct_rows(&mut state, &next, &Bits::from_bools(&[true, true, false]));
    assert!(rows_eq(&out, &[vec![d(3)]]));
    assert!(state.contains(&vec![d(3)]));
    assert!(!state.contains(&vec![d(4)]));
    state.insert(vec![d(4)]);
    assert!(state.contains(&vec![d(4)]));
}

#[test]
fn cross_product_pairs_every_row() {
    let left = vec![vec![d(1)], vec![d(2)]];
    let right = vec![vec![Some(text("x")), d(9)], vec![Some(text("y")), d(8)]];
    let mapping = [OutputColumnSource::Right(0), OutputColumnSource::Left(0), OutputColumnSource::Left(5)];
    let out = cross_product(&left, &right, &mapping);
    let expected = vec![
        vec![Some(text("x")), d(1), None],
        vec![Some(text("y")), d(1), None],
        vec![Some(text("x")), d(2), None],
        vec![Some(text("y")), d(2), None],
    ];
    assert!(rows_eq(&out, &expected));
    assert_eq!(cross_product(&left, &vec![], &mapping).len(), 0);
}

#[test]
fn create_list_per_visible_row() {
    let elements = vec![vec![d(1), d(2)], vec![None, d(4)]];
    let out = create_list_batch(&elements, &Bits::from_bools(&[true, true]));
    assert_eq!(out.len(), 2);
    match &out[0] {
        Some(ScalarValue::List(items)) => {
            assert!(items[0].same_as(&ival(1)));
            assert!(items[1].same_as(&ScalarValue::Unknown));
        },
        _ => panic!("expected a list"),
    }
    let out = create_list_batch(&elements, &Bits::from_bools(&[false, true]));
    assert_eq!(out.len(), 1);
    assert!(same_datums(&out, &[Some(ScalarValue::List(vec![ival(2), ival(4)]))]));
}

fn visible(a: PageAction) -> Option<Vec<bool>> {
    match a {
        PageAction::Emit(b) => Some(b.to_bools()),
        PageAction::Skip => None,
        PageAction::Stop => panic!("unexpected stop"),
    }
}

#[test]
fn pagination_skips_then_limits() {
    let mut p = PaginationState::new(3, 4);
    assert_eq!(visible(p.next_chunk(2)), None);
    assert_eq!(visible(p.next_chunk(3)), Some(vec![false, true, true]));
    assert_eq!(visible(p.next_chunk(3)), Some(vec![true, true, false]));
    assert!(matches!(p.next_chunk(3), PageAction::Stop));
}

#[test]
fn pagination_without_limit() {
    let mut p = PaginationState::new(0, u64::MAX);
    assert_eq!(visible(p.next_chunk(2)), Some(vec![true, true]));
    assert_eq!(visible(p.next_chunk(0)), None);
    assert_eq!(visible(p.next_chunk(1)), Some(vec![true]));
    let mut zero = PaginationState::new(0, 0);
    assert!(matches!(zero.next_chunk(5), PageAction::Stop));
}

#[test]
fn unwind_lists_and_non_lists() {
    let values = unwind_values(&Some(ScalarValue::List(vec![ival(1), ival(2)])));
    assert!(same_datums(&values, &[d(1), d(2)]));
    assert!(same_datums(&unwind_values(&d(5)), &[None]));
    assert!(same_datums(&unwind_values(&None), &[None]));
    assert_eq!(unwind_values(&Some(ScalarValue::List(vec![]))).len(), 0);
    let rows = vec![vec![Some(text("a"))], vec![Some(text("b"))], vec![Some(text("c"))]];
    let lists = vec![Some(ScalarValue::List(vec![ival(1), ival(2)])), Some(ScalarValue::List(vec![])), None];
    let out = unwind_rows(&rows, &lists);
    let expected = vec![
        vec![Some(text("a")), d(1)],
        vec![Some(text("a")), d(2)],
        vec![Some(text("c")), None],
    ];
    assert!(rows_eq(&out, &expected));
}

#[test]
fn operator_metrics() {
    let mut child = OperatorMetrics::new("Scan", vec![]);
    child.record_elapsed(40);
    child.record_rows(7);
    let mut parent = OperatorMetrics::new("Filter", vec![child]);
    parent.record_elapsed(100);
    assert_eq!(parent.children_elapsed_ns(), 40);
    assert_eq!(parent.self_elapsed_ns(), 60);
    assert_eq!(parent.children[0].rows, 7);
    let mut fast = OperatorMetrics::new("Project", vec![OperatorMetrics::new("Scan", vec![])]);
    fast.children[0].record_elapsed(50);
    fast.record_elapsed(10);
    assert_eq!(fast.self_elapsed_ns(), 0);
    let mut wrap = OperatorMetrics::new("X", vec![]);
    wrap.record_rows(u64::MAX);
    wrap.record_rows(2);
    assert_eq!(wrap.rows, 1);
}

fn schema() -> Schema {
    Schema {
        columns: vec![
            Variable { name: "n".to_string(), typ: LogicalType::simple(LogicalTypeKind::Node) },
            Variable { name: "x".to_string(), typ: LogicalType::simple(LogicalTypeKind::Integer) },
            Variable { name: "n".to_string(), typ: LogicalType::simple(LogicalTypeKind::String) },
        ],
    }
}

#[test]
fn build_variable_finds_last_column_of_a_name() {
    let s = schema();
    let ctx = BuildExprContext::new(&s);
    assert_eq!(ctx.column_index(&"x".to_string()), Some(1));
    assert_eq!(ctx.column_index(&"n".to_string()), Some(2));
    assert_eq!(ctx.column_index(&"m".to_string()), None);
    let var = VariableRef { name: "x".to_string(), typ: LogicalType::simple(LogicalTypeKind::Integer) };
    let e: VariableRefExpr = match build_variable(&ctx, &var) {
        Ok(e) => e,
        Err(_) => panic!("x is in the schema"),
    };
    assert_eq!(e.idx, 1);
    assert!(e.typ().same_as(&LogicalType::simple(LogicalTypeKind::Integer)));
    let columns = vec![vec![None, None], vec![d(4), d(5)], vec![None, None]];
    assert!(same_datums(&e.eval_batch(&columns), &[d(4), d(5)]));
    let missing = VariableRef { name: "y".to_string(), typ: LogicalType::simple(LogicalTypeKind::Any) };
    match build_variable(&ctx, &missing) {
        Err(BuildError::VariableNotFound(n)) => assert_eq!(n, "y"),
        Ok(_) => panic!("y is not in the schema"),
    }
}

#[test]
fn build_constant_types_untyped_constants_as_any() {
    let c = build_constant(&Constant { data: d(3), typ: None });
    assert!(c.typ().same_as(&LogicalType::simple(LogicalTypeKind::Any)));
    assert!(same_datums(&c.eval_batch(3), &[d(3), d(3), d(3)]));
    let typed: ConstantExpr =
        build_constant(&Constant { data: None, typ: Some(LogicalType::simple(LogicalTypeKind::Bool)) });
    assert!(typed.typ.same_as(&LogicalType::simple(LogicalTypeKind::Bool)));
    assert!(same_datums(&typed.eval_batch(1), &[None]));
}

fn node(id: u64, labels: &[&str], props: Vec<(&str, Datum)>) -> NodeRecord {
    NodeRecord {
        id,
        labels: labels.iter().map(|l| l.to_string()).collect(),
        props: props.into_iter().map(|(k, v)| (k.to_string(), v)).collect(),
    }
}

#[test]
fn extract_properties_in_order_or_first_missing() {
    let props = vec![("a".to_string(), d(1)), ("b".to_string(), Some(ScalarValue::Unknown)), ("c".to_string(), d(3))];
    match extract_node_properties(&props, &["c".to_string(), "a".to_string()]) {
        PropertyResult::AllPresent(v) => assert!(same_datums(&v, &[d(3), d(1)])),
        PropertyResult::MissingOrNull(_) => panic!("both are present"),
    }
    match extract_node_properties(&props, &["a".to_string(), "b".to_string(), "z".to_string()]) {
        PropertyResult::MissingOrNull(n) => assert_eq!(n, "b"),
        PropertyResult::AllPresent(_) => panic!("b is null"),
    }
}

fn violation(r: Result<Vec<elio_query::execution::ddl::IndexEntry>, ExecError>) -> (String, String) {
    match r {
        Err(ExecError::ConstraintViolation { constraint, reason }) => (constraint, reason),
        _ => panic!("expected a constraint violation"),
    }
}

#[test]
fn unique_index_over_labelled_nodes() {
    let nodes = vec![
        node(1, &["Person"], vec![("email", Some(text("a@x")))]),
        node(2, &["Company"], vec![("email", Some(text("a@x")))]),
        node(3, &["Person"], vec![]),
        node(4, &["Person", "Admin"], vec![("email", Some(text("b@x")))]),
    ];
    let names = vec!["email".to_string()];
    let entries = match build_index(&nodes, "Person", ConstraintKind::Unique, &names) {
        Ok(e) => e,
        Err(_) => panic!("no violation"),
    };
    assert_eq!(entries.len(), 2);
    assert_eq!(entries[0].node_id, 1);
    assert_eq!(entries[1].node_id, 4);
    assert!(same_datums(&entries[1].values, &[Some(text("b@x"))]));
}

#[test]
fn unique_index_rejects_duplicates() {
    let nodes = vec![
        node(10, &["Person"], vec![("email", Some(text("a@x")))]),
        node(11, &["Person"], vec![("email", Some(text("a@x")))]),
    ];
    let names = vec!["email".to_string()];
    let (constraint, reason) = violation(build_index(&nodes, "Person", ConstraintKind::Unique, &names));
    assert_eq!(constraint, "constraint on :Person");
    assert_eq!(reason, "Duplicate property values for node 11");
}

#[test]
fn node_key_rejects_missing_properties() {
    let nodes = vec![node(7, &["Person"], vec![("name", Some(text("Ann")))])];
    let names = vec!["name".to_string(), "email".to_string()];
    let (constraint, reason) = violation(build_index(&nodes, "Person", ConstraintKind::NodeKey, &names));
    assert_eq!(constraint, "NODE KEY constraint on :Person");
    assert_eq!(reason, "Node 7 has missing or null property 'email'");
    assert!(build_index(&nodes, "Person", ConstraintKind::Unique, &names).ok().unwrap().is_empty());
}

#[test]
fn constraint_executors() {
    let nodes = vec![node(1, &["L"], vec![("p", d(1))]), node(2, &["L"], vec![("p", d(1))])];
    let unique = CreateConstraintExecutor::new(ConstraintKind::Unique, 3, vec![5], vec!["p".to_string()]);
    assert!(matches!(unique.execute("L", &nodes), Err(ExecError::ConstraintViolation { .. })));
    let not_null = CreateConstraintExecutor::new(ConstraintKind::NotNull, 3, vec![5], vec!["p".to_string()]);
    assert!(not_null.execute("L", &nodes).ok().unwrap().is_empty());
    assert!(DropConstraintExecutor.execute().is_ok());
}

#[test]
fn grouping_set_accumulates_per_key() {
    let mut set = GroupingSet::new(vec![vec![0], vec![], vec![0]], vec![
        AggFunctionKind::Sum,
        AggFunctionKind::CountStar,
        AggFunctionKind::Collect,
    ]);
    assert!(set.is_empty());
    let columns = vec![vec![Some(text("a")), Some(text("b")), Some(text("a"))], vec![d(1), d(2), d(3)]];
    for row in 0..3 {
        let key = row_key(&columns, &[0], row);
        let values = row_values(&columns, row);
        let input = vec![values[1].as_ref().map(|v| v.duplicate())];
        match set.accumulate_row(&key, &input) {
            Ok((_, updates)) => assert!(updates.iter().all(|u| *u == AggUpdate::Done)),
            Err(_) => panic!("update failed"),
        }
    }
    assert_eq!(set.len(), 2);
    assert_eq!(set.lookup(&[Some(text("a"))]), Some(0));
    assert_eq!(set.lookup(&[Some(text("b"))]), Some(1));
    assert_eq!(set.lookup(&[Some(text("c"))]), None);
    let mapping = [
        OutputColumnSource::Left(0),
        OutputColumnSource::Right(0),
        OutputColumnSource::Right(1),
        OutputColumnSource::Right(2),
    ];
    let chunks = set.finalize_chunks(&mapping, 1);
    assert_eq!(chunks.len(), 2);
    let expected_a = vec![
        Some(text("a")),
        d(4),
        d(2),
        Some(ScalarValue::List(vec![ival(1), ival(3)])),
    ];
    let expected_b = vec![Some(text("b")), d(2), d(1), Some(ScalarValue::List(vec![ival(2)]))];
    assert!(rows_eq(&chunks[0], &[expected_a]));
    assert!(rows_eq(&chunks[1], &[expected_b]));
}

#[test]
fn grouping_set_float_sum_and_overflow() {
    let mut set = GroupingSet::new(vec![vec![0]], vec![AggFunctionKind::Sum]);
    let key = vec![d(0)];
    match set.accumulate_row(&key, &[d(1)]) {
        Ok((g, updates)) => {
            assert_eq!(g, 0);
            assert_eq!(updates, vec![AggUpdate::Done]);
        },
        Err(_) => panic!("update failed"),
    }
    let half = 0.5f64.to_bits();
    match set.accumulate_row(&key, &[Some(ScalarValue::Float(half))]) {
        Ok((g, updates)) => {
            assert_eq!(updates, vec![AggUpdate::FloatSum { acc: NumberBits::Integer(1), value: NumberBits::Float(half) }]);
            set.complete_float_sum(g, 0, 1.5f64.to_bits());
        },
        Err(_) => panic!("update failed"),
    }
    let chunks = set.finalize_chunks(&[OutputColumnSource::Right(0)], 10);
    assert!(rows_eq(&chunks[0], &[vec![Some(ScalarValue::Float(1.5f64.to_bits()))]]));

    let mut over = GroupingSet::new(vec![vec![0]], vec![AggFunctionKind::Sum]);
    assert!(over.accumulate_row(&key, &[d(i64::MAX)]).is_ok());
    match over.accumulate_row(&key, &[d(1)]) {
        Err(EvalError::ArithmeticOverflow { op, .. }) => assert_eq!(op, "sum"),
        _ => panic!("expected an overflow"),
    }
}

#[test]
fn finalize_cuts_chunks() {
    let mut set = GroupingSet::new(vec![vec![]], vec![AggFunctionKind::CountStar]);
    for k in 0..5 {
        assert!(set.accumulate_row(&[d(k)], &[]).is_ok());
    }
    let chunks = set.finalize_chunks(&[OutputColumnSource::Left(0)], 2);
    let sizes: Vec<usize> = chunks.iter().map(|c| c.len()).collect();
    assert_eq!(sizes, vec![2, 2, 1]);
    assert!(rows_eq(&chunks[2], &[vec![d(4)]]));
    let mut empty = GroupingSet::new(vec![], vec![]);
    assert_eq!(empty.finalize_chunks(&[], 3).len(), 0);
}

fn fval(f: f64) -> Datum {
    Some(ScalarValue::Float(f.to_bits()))
}

#[test]
fn distinct_treats_signed_zeros_and_nans_as_equal() {
    let mut state = DistinctState::new();
    let columns = vec![vec![fval(0.0), fval(-0.0), fval(f64::NAN), fval(-f64::NAN), fval(1.5)]];
    let out = distinct_rows(&mut state, &columns, &Bits::repeat(true, 5));
    assert_eq!(out.len(), 3);
    assert!(same_datums(&out[0], &[fval(0.0)]));
    assert!(same_datums(&out[2], &[fval(1.5)]));
    assert!(state.contains(&vec![fval(-0.0)]));
    assert!(!state.contains(&vec![fval(2.0)]));
}

#[test]
fn grouping_treats_signed_zeros_as_one_key() {
    let mut set = GroupingSet::new(vec![vec![]], vec![AggFunctionKind::CountStar]);
    assert!(set.accumulate_row(&[fval(-0.0)], &[]).is_ok());
    assert!(set.accumulate_row(&[fval(0.0)], &[]).is_ok());
    assert!(set.accumulate_row(&[fval(f64::NAN)], &[]).is_ok());
    assert!(set.accumulate_row(&[Some(ScalarValue::List(vec![ScalarValue::Float((-f64::NAN).to_bits())]))], &[]).is_ok());
    assert!(set.accumulate_row(&[Some(ScalarValue::List(vec![ScalarValue::Float(f64::NAN.to_bits())]))], &[]).is_ok());
    assert_eq!(set.len(), 3);
    assert_eq!(set.lookup(&[fval(0.0)]), Some(0));
    let chunks = set.finalize_chunks(&[OutputColumnSource::Left(0), OutputColumnSource::Right(0)], 10);
    assert!(rows_eq(&chunks[0][..1], &[vec![fval(-0.0), d(2)]]));
}
