//! The checks that `CREATE` makes on the columns it reads before it writes nodes and
//! relationships to the store.
use vstd::prelude::*;

use crate::data_type::{LogicalType, LogicalTypeKind, PhysicalType, TypeView};
use crate::execution::error::ExecError;
use crate::scalar::{digits, unsigned_text};

verus! {

/// Whether a column of this type holds nodes that a relationship can start or end at.
pub open spec fn holds_nodes(t: TypeView) -> bool {
    t.physical_type == PhysicalType::Node || t.physical_type == PhysicalType::VirtualNode
}

/// `r` is a type mismatch error with this context, expectation and actual type.
pub open spec fn is_mismatch(r: Result<(), ExecError>, context: Seq<char>, expected: Seq<char>, actual: TypeView) -> bool {
    r matches Err(ExecError::TypeMismatch { context: c, expected: e, actual: a }) && c@ == context && e@ == expected
        && a@ == actual
}

/// The context that names the relationship item `item` of a `CREATE`.
pub open spec fn rel_item_context(item: u64) -> Seq<char> {
    "create rel item "@ + digits(item as nat)
}

fn rel_item_text(item: u64) -> (r: String)
    ensures
        r@ == rel_item_context(item),
{
    let mut s = String::from_str("create rel item ");
    let n = unsigned_text(item);
    s.append(n.as_str());
    s
}

/// The start and end columns of the relationship item `item` must hold nodes; otherwise the error
/// names the type of the first of them that does not.
pub fn check_rel_endpoints(item: u64, start: &LogicalType, end: &LogicalType) -> (r: Result<(), ExecError>)
    ensures
        holds_nodes(start@) && holds_nodes(end@) ==> r is Ok,
        !(holds_nodes(start@) && holds_nodes(end@)) ==> is_mismatch(
            r,
            rel_item_context(item) + " node"@,
            "node or virtual node"@,
            if !holds_nodes(start@) { start@ } else { end@ },
        ),
{
    let start_ok = match start.physical_type {
        PhysicalType::Node | PhysicalType::VirtualNode => true,
        _ => false,
    };
    let end_ok = match end.physical_type {
        PhysicalType::Node | PhysicalType::VirtualNode => true,
        _ => false,
    };
    if start_ok && end_ok {
        return Ok(());
    }
    let actual = if !start_ok { start.duplicate() } else { end.duplicate() };
    let mut context = rel_item_text(item);
    context.append(" node");
    proof {
        reveal_strlit(" node");
        reveal_strlit("node or virtual node");
    }
    Err(ExecError::type_mismatch(context.as_str(), "node or virtual node", actual))
}

/// The properties of the relationship item `item` must be a struct.
pub fn check_rel_properties(item: u64, props: &LogicalType) -> (r: Result<(), ExecError>)
    ensures
        props.kind == LogicalTypeKind::Struct ==> r is Ok,
        props.kind != LogicalTypeKind::Struct ==> is_mismatch(r, rel_item_context(item), "struct"@, props@),
{
    if props.is_struct() {
        return Ok(());
    }
    let context = rel_item_text(item);
    Err(ExecError::type_mismatch(context.as_str(), "struct", props.duplicate()))
}

/// The properties of a node to create must be a struct.
pub fn check_node_properties(props: &LogicalType) -> (r: Result<(), ExecError>)
    ensures
        props.kind == LogicalTypeKind::Struct ==> r is Ok,
        props.kind != LogicalTypeKind::Struct ==> is_mismatch(r, "create_node"@, "struct"@, props@),
{
    if props.is_struct() {
        return Ok(());
    }
    Err(ExecError::type_mismatch("create_node", "struct", props.duplicate()))
}

} // verus!
