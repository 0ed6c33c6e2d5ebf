use elio_query::binder::builder::IrSingleQueryBuilder;
use elio_query::binder::query::{
    bind_pagination, Pagination as QueryPagination, PaginationError, Projection, QueryProjection, RegularProjection,
};
use elio_query::binder::{BindContext, PlannerSession, TokenTable};
use elio_query::catalog::{IrToken, TokenKind};
use elio_query::bits::Bits;
use elio_query::database::error::Error as SessionError;
use elio_query::database::result::{EmptyResultHandle, ExplainResultHandle, ProfileResultHandle, ResultHandle, TaskHandleBridge};
use elio_query::execution::error::ExecError;
use elio_query::database::DatabaseConfig;
use elio_query::ir::path_pattern::{
    ChainPattern, NodeConnection, PathPattern, QuantifiedPattern, RelDirection, RelPattern, SelectivePathPattern,
    Selector, SingleNode,
};
use elio_query::optimizer::{RewriteOrder, UnnestApplyRule};
use elio_query::plan::expr::{Expr, Schema, Variable};
use elio_query::plan::plan_node::{
    plan_is_write, AllNodeScan, Apply, Argument, CreateNode, CrossProduct, Filter, PathMode, PlanExpr, Unit,
};
use elio_query::data_type::{LogicalType, LogicalTypeKind};
use elio_query::scalar::ScalarValue;

#[test]
fn tokens_resolve_through_the_session() {
    let mut session = TokenTable::new();
    session.add("Person", TokenKind::Label, 3);
    session.add("name", TokenKind::PropertyKey, 7);
    session.add("name", TokenKind::PropertyKey, 8);
    assert_eq!(session.resolve_token("name", TokenKind::PropertyKey), Some(8));
    assert_eq!(session.resolve_token("Name", TokenKind::PropertyKey), None);
    let ctx = BindContext::new(&session);
    match ctx.resolve_token("Person", TokenKind::Label) {
        IrToken::Resolved { name, token } => {
            assert_eq!(name, "Person");
            assert_eq!(token, 3);
        },
        IrToken::Unresolved(_) => panic!("Person is a known label"),
    }
    match ctx.resolve_token("Person", TokenKind::RelType) {
        IrToken::Unresolved(name) => assert_eq!(name, "Person"),
        IrToken::Resolved { .. } => panic!("Person is no relationship type"),
    }
    assert_eq!(ctx.resolve_token("name", TokenKind::PropertyKey).name(), "name");
    assert!(std::ptr::eq(ctx.session(), &session));
    assert_eq!(IrToken::from_lookup("x", None).name(), "x");
}

#[test]
fn database_config_keeps_its_path() {
    let config = DatabaseConfig::with_path("/tmp/graph.db");
    assert_eq!(config.path(), "/tmp/graph.db");
}

#[test]
fn ddl_result_has_one_confirmation_row() {
    let mut handle = EmptyResultHandle::new(vec!["result".to_string()]);
    assert_eq!(handle.columns(), &vec!["result".to_string()]);
    assert!(handle.profile().is_none());
    match handle.next_row() {
        Some(Ok(row)) => {
            assert_eq!(row.len(), 1);
            match &row[0] {
                Some(ScalarValue::String(s)) => assert_eq!(s, "Constraint created/dropped"),
                _ => panic!("expected a string"),
            }
        },
        _ => panic!("expected a row"),
    }
    assert!(handle.next_row().is_none());
    assert!(handle.next_row().is_none());
}

#[test]
fn explain_result_has_the_plan_row() {
    let mut handle = ExplainResultHandle::new("Filter\n  AllNodeScan".to_string());
    assert_eq!(handle.columns(), &vec!["plan".to_string()]);
    assert!(handle.profile().is_none());
    match handle.next_row() {
        Some(Ok(row)) => match &row[0] {
            Some(ScalarValue::String(s)) => assert_eq!(s, "Filter\n  AllNodeScan"),
            _ => panic!("expected a string"),
        },
        _ => panic!("expected a row"),
    }
    assert!(handle.next_row().is_none());
}

fn integer_row(row: Option<Result<Vec<Option<ScalarValue>>, SessionError>>) -> Vec<i64> {
    match row {
        Some(Ok(values)) => values
            .into_iter()
            .map(|v| match v {
                Some(ScalarValue::Integer(i)) => i,
                _ => panic!("expected an integer"),
            })
            .collect(),
        _ => panic!("expected a row"),
    }
}

#[test]
fn query_result_hands_out_visible_rows_then_the_error() {
    let mut handle = TaskHandleBridge::new(vec!["a".to_string(), "b".to_string()]);
    assert!(handle.profile().is_none());
    assert!(handle.next_row().is_none());
    let columns = vec![
        vec![Some(ScalarValue::Integer(1)), Some(ScalarValue::Integer(2)), Some(ScalarValue::Integer(3))],
        vec![Some(ScalarValue::Integer(10)), Some(ScalarValue::Integer(20)), Some(ScalarValue::Integer(30))],
    ];
    handle.push_chunk(&columns, &Bits::from_bools(&[true, false, true]));
    handle.push_error(ExecError::Store("disk".to_string()));
    assert_eq!(integer_row(handle.next_row()), vec![1, 10]);
    assert_eq!(integer_row(handle.next_row()), vec![3, 30]);
    match handle.next_row() {
        Some(Err(SessionError::ExecError(ExecError::Store(m)))) => assert_eq!(m, "disk"),
        _ => panic!("expected the task's error"),
    }
    assert!(handle.next_row().is_none());
    assert_eq!(handle.columns(), &vec!["a".to_string(), "b".to_string()]);
}

#[test]
fn profile_result_gives_its_profile_text() {
    let mut handle = ProfileResultHandle::new(vec!["a".to_string()], "Scan".to_string());
    assert_eq!(handle.profile(), Some("Scan".to_string()));
    let columns = vec![vec![Some(ScalarValue::Integer(5))]];
    handle.push_chunk(&columns, &Bits::repeat(true, 1));
    assert_eq!(integer_row(handle.next_row()), vec![5]);
    assert!(handle.next_row().is_none());
    handle.set_profile_text("Scan rows=1".to_string());
    assert_eq!(handle.profile(), Some("Scan rows=1".to_string()));
    assert_eq!(handle.profile(), Some("Scan rows=1".to_string()));
    assert_eq!(handle.columns(), &vec!["a".to_string()]);
}

fn rel(variable: &str, left: &str, right: &str) -> NodeConnection {
    NodeConnection::RelPattern(RelPattern {
        variable: variable.to_string(),
        left: left.to_string(),
        right: right.to_string(),
        types: vec![],
        direction: RelDirection::Right,
        min_hops: 1,
        max_hops: Some(1),
    })
}

#[test]
fn chain_endpoints_and_relationships() {
    let chain = ChainPattern { connections: vec![rel("r1", "a", "b"), rel("r2", "b", "c")] };
    let ends: Vec<String> = chain.endpoint_nodes().into_iter().cloned().collect();
    assert_eq!(ends, vec!["a", "b", "b", "c"]);
    let rels = chain.as_rels().unwrap();
    assert_eq!(rels.len(), 2);
    assert_eq!(rels[1].variable, "r2");
    let quantified = ChainPattern {
        connections: vec![
            rel("r1", "a", "b"),
            NodeConnection::Quantified(QuantifiedPattern {
                left: "b".to_string(),
                right: "c".to_string(),
                min_repeat: 1,
                max_repeat: None,
            }),
        ],
    };
    assert!(quantified.as_rels().is_none());
}

#[test]
fn path_pattern_shapes() {
    let single = PathPattern::SingleNode(SingleNode { variable: "n".to_string() });
    assert!(single.as_node_connections().is_none());
    let chain = PathPattern::Chain(ChainPattern { connections: vec![rel("r", "x", "y")] });
    assert_eq!(chain.as_node_connections().unwrap().connections.len(), 1);
    let selective = SelectivePathPattern::new(
        ChainPattern { connections: vec![rel("r", "s", "t")] },
        vec![],
        Selector::ShortestK(1),
    );
    let ends: Vec<String> = selective.endpoint_nodes().into_iter().cloned().collect();
    assert_eq!(ends, vec!["s", "t"]);
    assert!(PathPattern::Selective(selective).as_node_connections().is_none());
    assert_eq!(PathMode::default_mode(), PathMode::Trail);
}

fn scan(variable: &str) -> PlanExpr {
    PlanExpr::AllNodeScan(AllNodeScan { variable: variable.to_string(), arguments: None })
}

fn argument() -> PlanExpr {
    PlanExpr::Argument(Argument { variables: vec!["n".to_string()] })
}

#[test]
fn plan_inputs_and_writes() {
    let product = PlanExpr::CrossProduct(CrossProduct { left: scan("a").boxed(), right: scan("b").boxed() });
    assert_eq!(product.inputs().len(), 2);
    assert!(!plan_is_write(&product));
    let create = PlanExpr::CreateNode(CreateNode { input: PlanExpr::Unit(Unit {}).boxed(), nodes: vec![] });
    let filter = PlanExpr::Filter(Filter { input: create.boxed(), condition: vec![] });
    assert!(plan_is_write(&filter));
    assert_eq!(filter.inputs().len(), 1);
    let empty = PlanExpr::empty(Schema {
        columns: vec![Variable { name: "n".to_string(), typ: LogicalType::simple(LogicalTypeKind::Node) }],
    });
    assert_eq!(empty.inputs().len(), 0);
    assert!(!plan_is_write(&empty));
}

#[test]
fn map_children_rebuilds_the_node() {
    let product = PlanExpr::CrossProduct(CrossProduct { left: scan("a").boxed(), right: argument().boxed() });
    let mapped = product.map_children(|_child| PlanExpr::Unit(Unit {}));
    match mapped {
        PlanExpr::CrossProduct(node) => {
            assert!(matches!(*node.left, PlanExpr::Unit(_)));
            assert!(matches!(*node.right, PlanExpr::Unit(_)));
        },
        _ => panic!("the node keeps its kind"),
    }
    let failed: Result<PlanExpr, String> = scan("x").map_children_result(|c| Ok(c));
    assert!(matches!(failed, Ok(PlanExpr::AllNodeScan(_))));
    let filter = PlanExpr::Filter(Filter { input: scan("a").boxed(), condition: vec![] });
    let err = filter.map_children_result(|_c| Err::<PlanExpr, String>("no".to_string()));
    assert_eq!(err.err(), Some("no".to_string()));
}

#[test]
fn map_children_result_stops_at_the_first_failing_input() {
    let apply = PlanExpr::Apply(Apply { left: scan("a").boxed(), right: scan("b").boxed() });
    let err = apply.map_children_result(|c| match c {
        PlanExpr::AllNodeScan(s) => Err::<PlanExpr, String>(s.variable),
        other => Ok(other),
    });
    assert_eq!(err.err(), Some("a".to_string()));
    let apply = PlanExpr::Apply(Apply { left: argument().boxed(), right: scan("b").boxed() });
    let err = apply.map_children_result(|c| match c {
        PlanExpr::AllNodeScan(s) => Err::<PlanExpr, String>(s.variable),
        other => Ok(other),
    });
    assert_eq!(err.err(), Some("b".to_string()));
}

#[test]
fn map_children_is_an_infallible_map_children_result() {
    let rewrite = |c: PlanExpr| match c {
        PlanExpr::AllNodeScan(s) => PlanExpr::AllNodeScan(AllNodeScan { variable: format!("{}2", s.variable), arguments: None }),
        other => other,
    };
    let product = || PlanExpr::CrossProduct(CrossProduct { left: scan("a").boxed(), right: argument().boxed() });
    let direct = product().map_children(rewrite);
    let wrapped = product().map_children_result(|c| Ok::<PlanExpr, ()>(rewrite(c)));
    let shape = |p: &PlanExpr| match p {
        PlanExpr::CrossProduct(node) => match (&*node.left, &*node.right) {
            (PlanExpr::AllNodeScan(s), PlanExpr::Argument(a)) => (s.variable.clone(), a.variables.clone()),
            _ => panic!("the inputs keep their kinds"),
        },
        _ => panic!("the node keeps its kind"),
    };
    let wrapped = match wrapped {
        Ok(p) => p,
        Err(()) => panic!("an infallible rewrite does not fail"),
    };
    assert_eq!(shape(&direct), ("a2".to_string(), vec!["n".to_string()]));
    assert_eq!(shape(&wrapped), shape(&direct));
}

#[test]
fn unnest_apply_drops_an_argument_leaf() {
    let rule = UnnestApplyRule;
    assert_eq!(rule.name(), "unnest_apply");
    assert_eq!(rule.order(), RewriteOrder::BottomUp);
    let apply = PlanExpr::Apply(Apply { left: scan("a").boxed(), right: argument().boxed() });
    match rule.apply(apply) {
        Some(PlanExpr::AllNodeScan(s)) => assert_eq!(s.variable, "a"),
        _ => panic!("the rule applies"),
    }
    let other = PlanExpr::Apply(Apply { left: scan("a").boxed(), right: scan("b").boxed() });
    assert!(rule.apply(other).is_none());
    assert!(rule.apply(scan("c")).is_none());
}

#[test]
fn query_builder_parts() {
    let mut builder = IrSingleQueryBuilder::new();
    builder.new_tail(vec!["n".to_string()]);
    let tail = builder.tail_mut().unwrap();
    assert_eq!(tail.input_bindings, vec!["n".to_string()]);
    tail.with_projection(QueryProjection::Project(Projection::Regular(RegularProjection {
        items: vec![(
            "x".to_string(),
            Expr::Constant(elio_query::plan::expr::Constant { data: Some(ScalarValue::Integer(1)), typ: None }),
        )],
        order_by: vec![],
        pagination: QueryPagination::unbounded(),
        filter: vec![],
        output: vec!["x".to_string()],
    })));
    let query = builder.build();
    assert_eq!(query.parts.len(), 2);
    assert!(query.parts[0].projection.is_none());
    assert!(query.parts[0].input_bindings.is_empty());
    match &query.parts[1].projection {
        Some(QueryProjection::Project(Projection::Regular(p))) => {
            assert_eq!(p.output, vec!["x".to_string()]);
            assert_eq!(p.pagination.offset, 0);
            assert_eq!(p.pagination.limit, u64::MAX);
        },
        _ => panic!("expected the regular projection"),
    }
}

fn constant(v: Option<ScalarValue>) -> Expr {
    Expr::Constant(elio_query::plan::expr::Constant { data: v, typ: None })
}

#[test]
fn pagination_takes_non_negative_integer_constants() {
    let three = constant(Some(ScalarValue::Integer(3)));
    let ten = constant(Some(ScalarValue::Integer(10)));
    match bind_pagination(Some((&three, "3")), Some((&ten, "10"))) {
        Ok(p) => {
            assert_eq!(p.offset, 3);
            assert_eq!(p.limit, 10);
        },
        Err(_) => panic!("valid pagination"),
    }
    match bind_pagination(None, None) {
        Ok(p) => {
            assert_eq!(p.offset, 0);
            assert_eq!(p.limit, u64::MAX);
        },
        Err(_) => panic!("valid pagination"),
    }
    let negative = constant(Some(ScalarValue::Integer(-1)));
    match bind_pagination(Some((&negative, "-1")), Some((&ten, "10"))) {
        Err(PaginationError::InvalidOffset(t)) => assert_eq!(t, "-1"),
        _ => panic!("a negative offset is refused"),
    }
    let text = constant(Some(ScalarValue::String("x".to_string())));
    match bind_pagination(None, Some((&text, "'x'"))) {
        Err(PaginationError::InvalidLimit(t)) => assert_eq!(t, "'x'"),
        _ => panic!("a string limit is refused"),
    }
    let null = constant(None);
    assert!(matches!(bind_pagination(Some((&null, "null")), None), Err(PaginationError::InvalidOffset(_))));
}
