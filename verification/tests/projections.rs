use elio_query::binder::project_body::{
    aggregate_projection, expr_contains_agg, extract_aggregates, regular_projection, split_return_items,
};
use elio_query::binder::query::{Pagination, Projection};
use elio_query::data_type::{LogicalType, LogicalTypeKind};
use elio_query::execution::profile::{OperatorMetrics, PollOutcome};
use elio_query::plan::expr::{Constant, Expr, VariableRef};
use elio_query::plan::plan_node::{SortDirection, SortItem};
use elio_query::scalar::ScalarValue;

fn int_type() -> LogicalType {
    LogicalType::simple(LogicalTypeKind::Integer)
}

fn var(name: &str) -> Expr {
    Expr::VariableRef(VariableRef { name: name.to_string(), typ: int_type() })
}

fn constant(i: i64) -> Expr {
    Expr::Constant(Constant { data: Some(ScalarValue::Integer(i)), typ: Some(int_type()) })
}

fn agg(function: &str, arg: Expr) -> Expr {
    Expr::AggCall { function: function.to_string(), args: vec![arg], distinct: false, typ: int_type() }
}

fn call(function: &str, args: Vec<Expr>) -> Expr {
    Expr::ScalarCall { function: function.to_string(), args, typ: int_type() }
}

fn var_name(e: &Expr) -> String {
    match e {
        Expr::VariableRef(v) => v.name.clone(),
        _ => panic!("expected a variable reference"),
    }
}

fn item(name: &str, e: Expr) -> (String, Expr) {
    (name.to_string(), e)
}

#[test]
fn contains_agg_looks_through_calls_but_not_constants() {
    assert!(expr_contains_agg(&agg("sum", var("a"))));
    assert!(expr_contains_agg(&call("add", vec![constant(1), agg("count", var("a"))])));
    assert!(expr_contains_agg(&Expr::CreateList { elements: vec![agg("count", var("a"))], typ: int_type() }));
    assert!(!expr_contains_agg(&call("add", vec![constant(1), var("a")])));
    assert!(!expr_contains_agg(&var("a")));
}

#[test]
fn split_keeps_the_order_of_keys_and_aggregates() {
    let items = vec![
        item("n", var("n")),
        item("total", agg("sum", var("a"))),
        item("m", call("add", vec![var("m"), constant(1)])),
        item("c", call("mul", vec![agg("count", var("a")), constant(3)])),
    ];
    let (keys, aggs) = split_return_items(&items);
    assert_eq!(keys.iter().map(|p| p.0.clone()).collect::<Vec<_>>(), vec!["n", "m"]);
    assert_eq!(aggs.iter().map(|p| p.0.clone()).collect::<Vec<_>>(), vec!["total", "c"]);
}

#[test]
fn extract_aggregates_lifts_each_call_once() {
    let items = vec![
        item("total", agg("sum", var("a"))),
        item("c", call("mul", vec![agg("sum", var("a")), agg("count", var("a"))])),
        item("d", call("add", vec![agg("count", var("a")), constant(1)])),
    ];
    let mut next = 7u64;
    let (aggregates, rewritten) = extract_aggregates(items, &mut next);
    assert_eq!(aggregates.iter().map(|p| p.0.clone()).collect::<Vec<_>>(), vec!["total", "_anon_7"]);
    assert_eq!(next, 8);
    match &aggregates[1].1 {
        Expr::AggCall { function, .. } => assert_eq!(function, "count"),
        _ => panic!("expected an aggregate call"),
    }
    assert_eq!(rewritten.len(), 3);
    assert_eq!(var_name(&rewritten[0].1), "total");
    match &rewritten[1].1 {
        Expr::ScalarCall { function, args, .. } => {
            assert_eq!(function, "mul");
            assert_eq!(var_name(&args[0]), "total");
            assert_eq!(var_name(&args[1]), "_anon_7");
        },
        _ => panic!("expected the call kept"),
    }
    match &rewritten[2].1 {
        Expr::ScalarCall { args, .. } => assert_eq!(var_name(&args[0]), "_anon_7"),
        _ => panic!("expected the call kept"),
    }
    for (_, e) in rewritten.iter() {
        assert!(!expr_contains_agg(e));
    }
}

#[test]
fn distinct_only_projection_groups_by_its_items() {
    let mut next = 0u64;
    let p = aggregate_projection(
        vec![item("n", var("n")), item("n", var("m"))],
        vec![],
        vec![SortItem { expr: var("n"), direction: SortDirection::Descending }],
        Pagination { offset: 2, limit: 5 },
        vec![],
        &mut next,
    );
    match p {
        Projection::Distinct(d) => {
            assert_eq!(d.group_by.len(), 1);
            assert_eq!(var_name(&d.group_by[0].1), "m");
            assert_eq!(d.order_by.len(), 1);
            assert_eq!((d.pagination.offset, d.pagination.limit), (2, 5));
        },
        _ => panic!("expected a distinct projection"),
    }
    assert_eq!(next, 0);
}

#[test]
fn aggregate_projection_keeps_keys_and_lifts_aggregates() {
    let mut next = 0u64;
    let p = aggregate_projection(
        vec![item("n", call("lower", vec![var("x")]))],
        vec![item("total", call("add", vec![agg("sum", var("a")), constant(1)]))],
        vec![],
        Pagination::unbounded(),
        vec![],
        &mut next,
    );
    match p {
        Projection::Aggregate(a) => {
            assert_eq!(a.group_by.len(), 1);
            assert_eq!(a.group_by[0].0, "n");
            assert_eq!(a.aggregate.len(), 1);
            assert_eq!(a.aggregate[0].0, "_anon_0");
            assert_eq!(a.post_projection.iter().map(|p| p.0.clone()).collect::<Vec<_>>(), vec!["n", "total"]);
            assert_eq!(var_name(&a.post_projection[0].1), "n");
            match &a.post_projection[1].1 {
                Expr::ScalarCall { args, .. } => assert_eq!(var_name(&args[0]), "_anon_0"),
                _ => panic!("expected the rewritten item"),
            }
        },
        _ => panic!("expected an aggregate projection"),
    }
    assert_eq!(next, 1);
}

#[test]
fn regular_projection_outputs_its_variables_once() {
    let p = regular_projection(
        vec![item("a", var("x")), item("b", constant(1)), item("a", var("y"))],
        vec![],
        Pagination::unbounded(),
        vec![],
    );
    assert_eq!(p.output, vec!["a".to_string(), "b".to_string()]);
    assert_eq!(var_name(&p.items[0].1), "y");
}

#[test]
fn profiled_polls_count_chunks_and_the_end() {
    let mut m = OperatorMetrics::new("Scan", vec![]);
    m.record_poll(PollOutcome::Chunk(3), 10);
    m.record_poll(PollOutcome::Failed, 100);
    m.record_poll(PollOutcome::Pending, 100);
    m.record_poll(PollOutcome::Finished, 5);
    assert_eq!(m.rows, 3);
    assert_eq!(m.elapsed_ns, 15);
}
