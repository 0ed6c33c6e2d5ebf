use elio_query::catalog::{ConstraintKind, EntityKind, IrToken};
use elio_query::data_type::{LogicalType, LogicalTypeKind};
use elio_query::database::ddl::{constraint_entry, create_constraint_precheck, drop_constraint_precheck};
use elio_query::database::error::Error;
use elio_query::execution::chunk_builder::ChunkBuilder;
use elio_query::execution::create::{check_node_properties, check_rel_endpoints, check_rel_properties};
use elio_query::execution::error::ExecError;
use elio_query::execution::hash_aggregate::OutputColumnSource;
use elio_query::execution::scan::{append_product, scan_label, seek_node_row, seek_output_row, seek_values};
use elio_query::execution::task::{task_step, task_transaction_mode, TaskAction, TaskEvent, TransactionMode};
use elio_query::plan::plan_node::{AllNodeScan, CreateNode, PlanExpr, Unit};
use elio_query::scalar::{same_datums, Datum, ScalarValue};

fn d(i: i64) -> Datum {
    Some(ScalarValue::Integer(i))
}

fn node(id: u64) -> Datum {
    Some(ScalarValue::VirtualNode(id))
}

fn rows_eq(a: &[Vec<Datum>], b: &[Vec<Datum>]) -> bool {
    a.len() == b.len() && a.iter().zip(b.iter()).all(|(x, y)| same_datums(x, y))
}

#[test]
fn chunk_builder_emits_full_chunks_then_the_rest() {
    let mut builder = ChunkBuilder::new(2);
    assert!(builder.append_row(vec![d(1)]).is_none());
    let full = builder.append_row(vec![d(2)]).expect("two rows fill a chunk");
    assert!(rows_eq(&full, &[vec![d(1)], vec![d(2)]]));
    assert!(builder.yield_chunk().is_none());
    assert!(builder.append_row(vec![d(3)]).is_none());
    let rest = builder.yield_chunk().expect("one row is pending");
    assert!(rows_eq(&rest, &[vec![d(3)]]));
    assert!(builder.yield_chunk().is_none());
}

#[test]
fn chunk_builder_of_one_row() {
    let mut builder = ChunkBuilder::new(1);
    let c = builder.append_row(vec![d(7), None]).unwrap();
    assert!(rows_eq(&c, &[vec![d(7), None]]));
}

#[test]
fn scan_label_of_unknown_label_reads_nothing() {
    assert_eq!(scan_label(&IrToken::Resolved { name: "Person".to_string(), token: 4 }), Some(4));
    assert_eq!(scan_label(&IrToken::Unresolved("Ghost".to_string())), None);
}

#[test]
fn scan_under_input_pairs_rows_into_chunks() {
    let mut builder = ChunkBuilder::new(3);
    let input = vec![vec![d(1)], vec![d(2)]];
    let nodes = vec![vec![node(10)], vec![node(11)]];
    let mapping = [OutputColumnSource::Left(0), OutputColumnSource::Right(0)];
    let chunks = append_product(&mut builder, &input, &nodes, &mapping);
    assert_eq!(chunks.len(), 1);
    assert!(rows_eq(&chunks[0], &[vec![d(1), node(10)], vec![d(1), node(11)], vec![d(2), node(10)]]));
    let rest = builder.yield_chunk().unwrap();
    assert!(rows_eq(&rest, &[vec![d(2), node(11)]]));
}

#[test]
fn seek_skips_null_keys() {
    let values = seek_values(&[d(1), Some(ScalarValue::String("a".to_string()))]).unwrap();
    assert_eq!(values.len(), 2);
    assert!(values[0].same_as(&ScalarValue::Integer(1)));
    assert!(seek_values(&[d(1), None]).is_none());
    assert_eq!(seek_values(&[]).unwrap().len(), 0);
}

#[test]
fn seek_rows_carry_the_node() {
    let row = seek_output_row(
        &[d(5), d(6)],
        &[OutputColumnSource::Right(0), OutputColumnSource::Left(1), OutputColumnSource::Left(9)],
        42,
    );
    assert!(same_datums(&row, &[node(42), d(6), None]));
    assert!(same_datums(&seek_node_row(8), &[node(8)]));
}

fn mismatch(r: Result<(), ExecError>) -> (String, String, LogicalType) {
    match r {
        Err(ExecError::TypeMismatch { context, expected, actual }) => (context, expected, actual),
        _ => panic!("expected a type mismatch"),
    }
}

#[test]
fn create_rel_needs_node_columns() {
    let n = LogicalType::simple(LogicalTypeKind::Node);
    let vn = LogicalType::simple(LogicalTypeKind::VirtualNode);
    let i = LogicalType::simple(LogicalTypeKind::Integer);
    assert!(check_rel_endpoints(0, &n, &vn).is_ok());
    assert!(check_rel_endpoints(0, &vn, &vn).is_ok());
    let (context, expected, actual) = mismatch(check_rel_endpoints(3, &n, &i));
    assert_eq!(context, "create rel item 3 node");
    assert_eq!(expected, "node or virtual node");
    assert!(actual.same_as(&i));
    let s = LogicalType::simple(LogicalTypeKind::String);
    let (_, _, actual) = mismatch(check_rel_endpoints(12, &s, &i));
    assert!(actual.same_as(&s));
}

#[test]
fn created_properties_must_be_structs() {
    let st = LogicalType::new_struct(vec![("a".to_string(), LogicalType::simple(LogicalTypeKind::Integer))]);
    assert!(check_rel_properties(0, &st).is_ok());
    assert!(check_node_properties(&st).is_ok());
    let list = LogicalType::new_list(LogicalType::simple(LogicalTypeKind::Any));
    let (context, expected, actual) = mismatch(check_rel_properties(1, &list));
    assert_eq!(context, "create rel item 1");
    assert_eq!(expected, "struct");
    assert!(actual.same_as(&list));
    let (context, _, _) = mismatch(check_node_properties(&list));
    assert_eq!(context, "create_node");
}

#[test]
fn constraint_prechecks() {
    assert!(matches!(create_constraint_precheck("c", false, false), Ok(true)));
    assert!(matches!(create_constraint_precheck("c", true, true), Ok(false)));
    match create_constraint_precheck("c", true, false) {
        Err(Error::ConstraintAlreadyExists(n)) => assert_eq!(n, "c"),
        _ => panic!("expected an error"),
    }
    assert!(matches!(drop_constraint_precheck("c", true, false), Ok(true)));
    assert!(matches!(drop_constraint_precheck("c", false, true), Ok(false)));
    match drop_constraint_precheck("c", false, false) {
        Err(Error::ConstraintNotFound(n)) => assert_eq!(n, "c"),
        _ => panic!("expected an error"),
    }
}

#[test]
fn constraint_entry_has_no_backing_index_yet() {
    let e = constraint_entry("uniq_email", EntityKind::Node, 2, ConstraintKind::Unique, vec![5, 6]);
    assert_eq!(e.name, "uniq_email");
    assert_eq!(e.entity_kind, EntityKind::Node);
    assert_eq!(e.label_or_rel_id, 2);
    assert_eq!(e.constraint_kind, ConstraintKind::Unique);
    assert_eq!(e.property_key_ids, vec![5, 6]);
    assert!(e.backing_index.is_none());
}

#[test]
fn task_transaction_and_steps() {
    let read = PlanExpr::AllNodeScan(AllNodeScan { variable: "n".to_string(), arguments: None });
    assert_eq!(task_transaction_mode(&read), TransactionMode::ReadOnly);
    let write = PlanExpr::CreateNode(CreateNode { input: PlanExpr::Unit(Unit {}).boxed(), nodes: vec![] });
    assert_eq!(task_transaction_mode(&write), TransactionMode::ReadWrite);
    assert_eq!(task_step(TaskEvent::Delivered { failed: false }), TaskAction::Continue);
    assert_eq!(task_step(TaskEvent::Delivered { failed: true }), TaskAction::Abort);
    assert_eq!(task_step(TaskEvent::Undeliverable), TaskAction::Abort);
    assert_eq!(task_step(TaskEvent::Exhausted), TaskAction::Commit);
    assert_eq!(task_step(TaskEvent::OpenFailed), TaskAction::Finish);
}
