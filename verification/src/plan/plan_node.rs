//! Logical plan nodes and the rewriting of their children.
use vstd::prelude::*;

use crate::catalog::IrToken;
use crate::ir::path_pattern::RelPattern;
use crate::plan::expr::{Expr, Schema, VariableName};

verus! {

/// How repeated nodes and relationships are treated by a variable length expansion.
#[derive(Debug, Clone, Copy, PartialEq, Eq, Structural)]
pub enum PathMode {
    /// repeated node, repeated rel
    Walk,
    /// repeated node, non-repeated rel
    Trail,
}

impl PathMode {
    pub fn default_mode() -> (r: PathMode)
        ensures
            r == PathMode::Trail,
    {
        PathMode::Trail
    }
}

#[derive(Debug, Clone, Copy, PartialEq, Eq, Structural)]
pub enum Direction {
    Outgoing,
    Incoming,
    Both,
}

#[derive(Debug, Clone, Copy, PartialEq, Eq, Structural)]
pub enum ExpandKind {
    /// the target node is a new variable
    All,
    /// the target node is already bound
    Into,
}

#[derive(Debug, Clone, Copy, PartialEq, Eq, Structural)]
pub enum SortDirection {
    Ascending,
    Descending,
}

pub struct SortItem {
    pub expr: Expr,
    pub direction: SortDirection,
}

pub struct CreateNodeItem {
    pub variable: VariableName,
    pub labels: Vec<IrToken>,
    pub properties: Expr,
}

pub struct CreateRelItem {
    pub variable: VariableName,
    pub rel_type: IrToken,
    pub start: VariableName,
    pub end: VariableName,
    pub properties: Expr,
}

/// Scans all nodes.
pub struct AllNodeScan {
    pub variable: VariableName,
    pub arguments: Option<Box<PlanExpr>>,
}

/// Finds a node through a unique index.
pub struct NodeIndexSeek {
    pub variable: VariableName,
    pub label: IrToken,
    pub constraint_name: String,
    pub prop_tokens: Vec<IrToken>,
    pub prop_values: Vec<Expr>,
    pub arguments: Option<Box<PlanExpr>>,
}

/// Reads the properties of entity variables.
pub struct GetProperty {
    pub input: Box<PlanExpr>,
    pub entities: Vec<VariableName>,
}

/// Follows one relationship from a bound node.
pub struct Expand {
    pub input: Box<PlanExpr>,
    pub from: VariableName,
    pub to: VariableName,
    pub rel: VariableName,
    pub direction: Direction,
    pub types: Vec<IrToken>,
    pub kind: ExpandKind,
}

/// Follows a variable length relationship pattern.
pub struct VarExpand {
    pub input: Box<PlanExpr>,
    pub from: VariableName,
    pub to: VariableName,
    pub rel_pattern: RelPattern,
    pub node_filter: Vec<Expr>,
    pub rel_filter: Vec<Expr>,
    pub kind: ExpandKind,
    pub path_mode: PathMode,
}

/// Runs the right side once per row of the left side.
pub struct Apply {
    pub left: Box<PlanExpr>,
    pub right: Box<PlanExpr>,
}

/// The rows handed in by an enclosing `Apply`.
pub struct Argument {
    pub variables: Vec<VariableName>,
}

/// A single empty row.
pub struct Unit {
}

/// Emits the result columns of a query.
pub struct ProduceResult {
    pub input: Box<PlanExpr>,
    pub return_columns: Vec<VariableName>,
}

/// Creates one node per item and input row.
pub struct CreateNode {
    pub input: Box<PlanExpr>,
    pub nodes: Vec<CreateNodeItem>,
}

/// Creates one relationship per item and input row.
pub struct CreateRel {
    pub input: Box<PlanExpr>,
    pub rels: Vec<CreateRelItem>,
}

/// Reads rows from a file.
pub struct Load {
    pub path: String,
    pub variable: VariableName,
}

/// Pairs every left row with every right row.
pub struct CrossProduct {
    pub left: Box<PlanExpr>,
    pub right: Box<PlanExpr>,
}

/// Groups rows and computes aggregates.
pub struct Aggregate {
    pub input: Box<PlanExpr>,
    pub group_by: Vec<(VariableName, Expr)>,
    pub aggregate: Vec<(VariableName, Expr)>,
}

/// Removes duplicate rows.
pub struct Distinct {
    pub input: Box<PlanExpr>,
    pub group_exprs: Vec<(VariableName, Expr)>,
}

/// Computes new columns.
pub struct Project {
    pub input: Box<PlanExpr>,
    pub projections: Vec<(VariableName, Expr)>,
}

/// Orders rows.
pub struct Sort {
    pub input: Box<PlanExpr>,
    pub items: Vec<SortItem>,
}

/// Keeps the rows on which every condition holds.
pub struct Filter {
    pub input: Box<PlanExpr>,
    pub condition: Vec<Expr>,
}

/// Skips `offset` rows and keeps at most `limit`.
pub struct Pagination {
    pub input: Box<PlanExpr>,
    pub offset: u64,
    pub limit: u64,
}

/// No rows.
pub struct Empty {
    pub schema: Schema,
}

/// Consumes its input and produces nothing.
pub struct BlackHole {
    pub input: Box<PlanExpr>,
}

/// A node of a logical plan.
pub enum PlanExpr {
    AllNodeScan(AllNodeScan),
    NodeIndexSeek(NodeIndexSeek),
    GetProperty(GetProperty),
    Expand(Expand),
    VarExpand(VarExpand),
    Apply(Apply),
    Argument(Argument),
    Unit(Unit),
    ProduceResult(ProduceResult),
    CreateNode(CreateNode),
    CreateRel(CreateRel),
    Load(Load),
    CrossProduct(CrossProduct),
    Aggregate(Aggregate),
    Distinct(Distinct),
    Project(Project),
    Sort(Sort),
    Filter(Filter),
    Pagination(Pagination),
    Empty(Empty),
    BlackHole(BlackHole),
}

/// The direct inputs of a plan node, left to right.
pub open spec fn children(p: PlanExpr) -> Seq<PlanExpr> {
    match p {
        PlanExpr::AllNodeScan(node) => match node.arguments {
            Some(a) => seq![*a],
            None => Seq::empty(),
        },
        PlanExpr::NodeIndexSeek(node) => match node.arguments {
            Some(a) => seq![*a],
            None => Seq::empty(),
        },
        PlanExpr::GetProperty(node) => seq![*node.input],
        PlanExpr::Expand(node) => seq![*node.input],
        PlanExpr::VarExpand(node) => seq![*node.input],
        PlanExpr::Apply(node) => seq![*node.left, *node.right],
        PlanExpr::Argument(_) => Seq::empty(),
        PlanExpr::Unit(_) => Seq::empty(),
        PlanExpr::ProduceResult(node) => seq![*node.input],
        PlanExpr::CreateNode(node) => seq![*node.input],
        PlanExpr::CreateRel(node) => seq![*node.input],
        PlanExpr::Load(_) => Seq::empty(),
        PlanExpr::CrossProduct(node) => seq![*node.left, *node.right],
        PlanExpr::Aggregate(node) => seq![*node.input],
        PlanExpr::Distinct(node) => seq![*node.input],
        PlanExpr::Project(node) => seq![*node.input],
        PlanExpr::Sort(node) => seq![*node.input],
        PlanExpr::Filter(node) => seq![*node.input],
        PlanExpr::Pagination(node) => seq![*node.input],
        PlanExpr::Empty(_) => Seq::empty(),
        PlanExpr::BlackHole(node) => seq![*node.input],
    }
}

/// The node `p` with its inputs replaced, left to right, by `cs`.
pub open spec fn with_children(p: PlanExpr, cs: Seq<PlanExpr>) -> PlanExpr {
    match p {
        PlanExpr::AllNodeScan(node) => PlanExpr::AllNodeScan(AllNodeScan {
            arguments: match node.arguments {
                Some(_) => Some(Box::new(cs[0])),
                None => None,
            },
            ..node
        }),
        PlanExpr::NodeIndexSeek(node) => PlanExpr::NodeIndexSeek(NodeIndexSeek {
            arguments: match node.arguments {
                Some(_) => Some(Box::new(cs[0])),
                None => None,
            },
            ..node
        }),
        PlanExpr::GetProperty(node) => PlanExpr::GetProperty(GetProperty { input: Box::new(cs[0]), ..node }),
        PlanExpr::Expand(node) => PlanExpr::Expand(Expand { input: Box::new(cs[0]), ..node }),
        PlanExpr::VarExpand(node) => PlanExpr::VarExpand(VarExpand { input: Box::new(cs[0]), ..node }),
        PlanExpr::Apply(node) => PlanExpr::Apply(Apply { left: Box::new(cs[0]), right: Box::new(cs[1]) }),
        PlanExpr::Argument(node) => PlanExpr::Argument(node),
        PlanExpr::Unit(node) => PlanExpr::Unit(node),
        PlanExpr::ProduceResult(node) => PlanExpr::ProduceResult(ProduceResult { input: Box::new(cs[0]), ..node }),
        PlanExpr::CreateNode(node) => PlanExpr::CreateNode(CreateNode { input: Box::new(cs[0]), ..node }),
        PlanExpr::CreateRel(node) => PlanExpr::CreateRel(CreateRel { input: Box::new(cs[0]), ..node }),
        PlanExpr::Load(node) => PlanExpr::Load(node),
        PlanExpr::CrossProduct(node) => PlanExpr::CrossProduct(CrossProduct { left: Box::new(cs[0]), right: Box::new(cs[1]) }),
        PlanExpr::Aggregate(node) => PlanExpr::Aggregate(Aggregate { input: Box::new(cs[0]), ..node }),
        PlanExpr::Distinct(node) => PlanExpr::Distinct(Distinct { input: Box::new(cs[0]), ..node }),
        PlanExpr::Project(node) => PlanExpr::Project(Project { input: Box::new(cs[0]), ..node }),
        PlanExpr::Sort(node) => PlanExpr::Sort(Sort { input: Box::new(cs[0]), ..node }),
        PlanExpr::Filter(node) => PlanExpr::Filter(Filter { input: Box::new(cs[0]), ..node }),
        PlanExpr::Pagination(node) => PlanExpr::Pagination(Pagination { input: Box::new(cs[0]), ..node }),
        PlanExpr::Empty(node) => PlanExpr::Empty(node),
        PlanExpr::BlackHole(node) => PlanExpr::BlackHole(BlackHole { input: Box::new(cs[0]), ..node }),
    }
}

/// Whether a plan creates data: it holds a `CreateNode` or `CreateRel` node.
pub open spec fn is_write(p: PlanExpr) -> bool
    decreases p,
{
    match p {
        PlanExpr::CreateNode(_) | PlanExpr::CreateRel(_) => true,
        PlanExpr::AllNodeScan(node) => match node.arguments {
            Some(a) => is_write(*a),
            None => false,
        },
        PlanExpr::NodeIndexSeek(node) => match node.arguments {
            Some(a) => is_write(*a),
            None => false,
        },
        PlanExpr::GetProperty(node) => is_write(*node.input),
        PlanExpr::Expand(node) => is_write(*node.input),
        PlanExpr::VarExpand(node) => is_write(*node.input),
        PlanExpr::Apply(node) => is_write(*node.left) || is_write(*node.right),
        PlanExpr::Argument(_) => false,
        PlanExpr::Unit(_) => false,
        PlanExpr::ProduceResult(node) => is_write(*node.input),
        PlanExpr::Load(_) => false,
        PlanExpr::CrossProduct(node) => is_write(*node.left) || is_write(*node.right),
        PlanExpr::Aggregate(node) => is_write(*node.input),
        PlanExpr::Distinct(node) => is_write(*node.input),
        PlanExpr::Project(node) => is_write(*node.input),
        PlanExpr::Sort(node) => is_write(*node.input),
        PlanExpr::Filter(node) => is_write(*node.input),
        PlanExpr::Pagination(node) => is_write(*node.input),
        PlanExpr::Empty(_) => false,
        PlanExpr::BlackHole(node) => is_write(*node.input),
    }
}

pub proof fn lemma_children_decrease(p: PlanExpr)
    ensures
        forall|i: int| 0 <= i < children(p).len() ==> decreases_to!(p => #[trigger] children(p)[i]),
        is_write(p) == (p is CreateNode || p is CreateRel || exists|i: int|
            0 <= i < children(p).len() && is_write(#[trigger] children(p)[i])),
{
    match p {
        PlanExpr::AllNodeScan(node) => {
            match node.arguments {
                Some(a) => {
                    assert(decreases_to!(p => *a));
                    assert(children(p)[0] == *a);
                },
                None => {},
            }
        },
        PlanExpr::NodeIndexSeek(node) => {
            match node.arguments {
                Some(a) => {
                    assert(decreases_to!(p => *a));
                    assert(children(p)[0] == *a);
                },
                None => {},
            }
        },
        PlanExpr::GetProperty(node) => {
            assert(decreases_to!(p => *node.input));
            assert(children(p)[0] == *node.input);
        },
        PlanExpr::Expand(node) => {
            assert(decreases_to!(p => *node.input));
            assert(children(p)[0] == *node.input);
        },
        PlanExpr::VarExpand(node) => {
            assert(decreases_to!(p => *node.input));
            assert(children(p)[0] == *node.input);
        },
        PlanExpr::Apply(node) => {
            assert(decreases_to!(p => *node.left));
            assert(decreases_to!(p => *node.right));
            assert(children(p)[0] == *node.left);
            assert(children(p)[1] == *node.right);
        },
        PlanExpr::Argument(_) => {
            
        },
        PlanExpr::Unit(_) => {
            
        },
        PlanExpr::ProduceResult(node) => {
            assert(decreases_to!(p => *node.input));
            assert(children(p)[0] == *node.input);
        },
        PlanExpr::CreateNode(node) => {
            assert(decreases_to!(p => *node.input));
            assert(children(p)[0] == *node.input);
        },
        PlanExpr::CreateRel(node) => {
            assert(decreases_to!(p => *node.input));
            assert(children(p)[0] == *node.input);
        },
        PlanExpr::Load(_) => {
            
        },
        PlanExpr::CrossProduct(node) => {
            assert(decreases_to!(p => *node.left));
            assert(decreases_to!(p => *node.right));
            assert(children(p)[0] == *node.left);
            assert(children(p)[1] == *node.right);
        },
        PlanExpr::Aggregate(node) => {
            assert(decreases_to!(p => *node.input));
            assert(children(p)[0] == *node.input);
        },
        PlanExpr::Distinct(node) => {
            assert(decreases_to!(p => *node.input));
            assert(children(p)[0] == *node.input);
        },
        PlanExpr::Project(node) => {
            assert(decreases_to!(p => *node.input));
            assert(children(p)[0] == *node.input);
        },
        PlanExpr::Sort(node) => {
            assert(decreases_to!(p => *node.input));
            assert(children(p)[0] == *node.input);
        },
        PlanExpr::Filter(node) => {
            assert(decreases_to!(p => *node.input));
            assert(children(p)[0] == *node.input);
        },
        PlanExpr::Pagination(node) => {
            assert(decreases_to!(p => *node.input));
            assert(children(p)[0] == *node.input);
        },
        PlanExpr::Empty(_) => {
            
        },
        PlanExpr::BlackHole(node) => {
            assert(decreases_to!(p => *node.input));
            assert(children(p)[0] == *node.input);
        },
    }
}

/// `r` is what rewriting the inputs of `p` with `f`, left to right, may give: either `p` rebuilt
/// from one result of `f` per input, or the error of the first input on which `f` fails, every
/// input before it having been mapped without error.
pub open spec fn children_mapped<F: Fn(PlanExpr) -> Result<PlanExpr, E>, E>(p: PlanExpr, f: F, r: Result<PlanExpr, E>) -> bool {
    match r {
        Ok(q) => {
            &&& children(q).len() == children(p).len()
            &&& q == with_children(p, children(q))
            &&& forall|i: int|
                0 <= i < children(p).len() ==> call_ensures(f, (#[trigger] children(p)[i],), Ok(children(q)[i]))
        },
        Err(e) => exists|j: int|
            0 <= j < children(p).len() && call_ensures(f, (#[trigger] children(p)[j],), Err(e)) && forall|k: int|
                0 <= k < j ==> maps_ok(f, #[trigger] children(p)[k]),
    }
}

/// `q` is `p` rebuilt from one result of `f` per input, left to right.
pub open spec fn children_rewritten<F: Fn(PlanExpr) -> PlanExpr>(p: PlanExpr, f: F, q: PlanExpr) -> bool {
    &&& children(q).len() == children(p).len()
    &&& q == with_children(p, children(q))
    &&& forall|i: int| 0 <= i < children(p).len() ==> call_ensures(f, (#[trigger] children(p)[i],), children(q)[i])
}

/// `f` may map `c` without error.
pub open spec fn maps_ok<F: Fn(PlanExpr) -> Result<PlanExpr, E>, E>(f: F, c: PlanExpr) -> bool {
    exists|q: PlanExpr| call_ensures(f, (c,), Ok(q))
}

impl PlanExpr {
    pub fn empty(schema: Schema) -> (r: PlanExpr)
        ensures
            r == PlanExpr::Empty(Empty { schema }),
    {
        PlanExpr::Empty(Empty { schema })
    }

    pub fn boxed(self) -> (r: Box<PlanExpr>)
        ensures
            *r == self,
    {
        Box::new(self)
    }

    /// The direct inputs of this node, left to right.
    pub fn inputs(&self) -> (r: Vec<&PlanExpr>)
        ensures
            r@.len() == children(*self).len(),
            forall|i: int| 0 <= i < r@.len() ==> *(#[trigger] r@[i]) == children(*self)[i],
    {
        let mut r: Vec<&PlanExpr> = Vec::new();
        match self {
            PlanExpr::AllNodeScan(node) => {
                if let Some(a) = &node.arguments {
                    r.push(&**a);
                }
            },
            PlanExpr::NodeIndexSeek(node) => {
                if let Some(a) = &node.arguments {
                    r.push(&**a);
                }
            },
            PlanExpr::GetProperty(node) => {
                r.push(&*node.input);
            },
            PlanExpr::Expand(node) => {
                r.push(&*node.input);
            },
            PlanExpr::VarExpand(node) => {
                r.push(&*node.input);
            },
            PlanExpr::Apply(node) => {
                r.push(&*node.left);
                r.push(&*node.right);
            },
            PlanExpr::Argument(_) => {
                
            },
            PlanExpr::Unit(_) => {
                
            },
            PlanExpr::ProduceResult(node) => {
                r.push(&*node.input);
            },
            PlanExpr::CreateNode(node) => {
                r.push(&*node.input);
            },
            PlanExpr::CreateRel(node) => {
                r.push(&*node.input);
            },
            PlanExpr::Load(_) => {
                
            },
            PlanExpr::CrossProduct(node) => {
                r.push(&*node.left);
                r.push(&*node.right);
            },
            PlanExpr::Aggregate(node) => {
                r.push(&*node.input);
            },
            PlanExpr::Distinct(node) => {
                r.push(&*node.input);
            },
            PlanExpr::Project(node) => {
                r.push(&*node.input);
            },
            PlanExpr::Sort(node) => {
                r.push(&*node.input);
            },
            PlanExpr::Filter(node) => {
                r.push(&*node.input);
            },
            PlanExpr::Pagination(node) => {
                r.push(&*node.input);
            },
            PlanExpr::Empty(_) => {
                
            },
            PlanExpr::BlackHole(node) => {
                r.push(&*node.input);
            },
        }
        r
    }

    /// Applies `f` to every direct input, left to right, and rebuilds this node from the results.
    /// Stops at the first input on which `f` fails and returns that error.
    pub fn map_children_result<F, E>(self, f: F) -> (r: Result<PlanExpr, E>) where
        F: Fn(PlanExpr) -> Result<PlanExpr, E>,

        requires
            forall|i: int| 0 <= i < children(self).len() ==> call_requires(f, (#[trigger] children(self)[i],)),
        ensures
            children_mapped(self, f, r),
    {
        let ghost unmapped = self;
        match self {
            PlanExpr::AllNodeScan(node) => {
                let AllNodeScan { variable, arguments } = node;
                let arguments = match arguments {
                    Some(arg) => {
                        assert(children(unmapped)[0] == *arg);
                        match f(*arg) {
                            Ok(v) => Some(Box::new(v)),
                            Err(e) => return Err(e),
                        }
                    },
                    None => None,
                };
                Ok(PlanExpr::AllNodeScan(AllNodeScan { variable, arguments }))
            },
            PlanExpr::NodeIndexSeek(node) => {
                let NodeIndexSeek { variable, label, constraint_name, prop_tokens, prop_values, arguments } = node;
                let arguments = match arguments {
                    Some(arg) => {
                        assert(children(unmapped)[0] == *arg);
                        match f(*arg) {
                            Ok(v) => Some(Box::new(v)),
                            Err(e) => return Err(e),
                        }
                    },
                    None => None,
                };
                Ok(PlanExpr::NodeIndexSeek(NodeIndexSeek { variable, label, constraint_name, prop_tokens, prop_values, arguments }))
            },
            PlanExpr::GetProperty(node) => {
                let GetProperty { input, entities } = node;
                assert(children(unmapped)[0] == *input);
                let input = match f(*input) {
                    Ok(v) => v,
                    Err(e) => return Err(e),
                };
                Ok(PlanExpr::GetProperty(GetProperty { input: Box::new(input), entities }))
            },
            PlanExpr::Expand(node) => {
                let Expand { input, from, to, rel, direction, types, kind } = node;
                assert(children(unmapped)[0] == *input);
                let input = match f(*input) {
                    Ok(v) => v,
                    Err(e) => return Err(e),
                };
                Ok(PlanExpr::Expand(Expand { input: Box::new(input), from, to, rel, direction, types, kind }))
            },
            PlanExpr::VarExpand(node) => {
                let VarExpand { input, from, to, rel_pattern, node_filter, rel_filter, kind, path_mode } = node;
                assert(children(unmapped)[0] == *input);
                let input = match f(*input) {
                    Ok(v) => v,
                    Err(e) => return Err(e),
                };
                Ok(PlanExpr::VarExpand(VarExpand { input: Box::new(input), from, to, rel_pattern, node_filter, rel_filter, kind, path_mode }))
            },
            PlanExpr::Apply(node) => {
                let Apply { left, right } = node;
                assert(children(unmapped)[0] == *left);
                assert(children(unmapped)[1] == *right);
                let ghost l0 = *left;
                let left = match f(*left) {
                    Ok(v) => v,
                    Err(e) => return Err(e),
                };
                let right = match f(*right) {
                    Ok(v) => v,
                    Err(e) => {
                        proof {
                            assert(call_ensures(f, (l0,), Ok(left)));
                            assert(maps_ok(f, children(unmapped)[0]));
                        }
                        return Err(e);
                    },
                };
                Ok(PlanExpr::Apply(Apply { left: Box::new(left), right: Box::new(right) }))
            },
            PlanExpr::Argument(node) => {
                Ok(PlanExpr::Argument(node))
            },
            PlanExpr::Unit(node) => {
                Ok(PlanExpr::Unit(node))
            },
            PlanExpr::ProduceResult(node) => {
                let ProduceResult { input, return_columns } = node;
                assert(children(unmapped)[0] == *input);
                let input = match f(*input) {
                    Ok(v) => v,
                    Err(e) => return Err(e),
                };
                Ok(PlanExpr::ProduceResult(ProduceResult { input: Box::new(input), return_columns }))
            },
            PlanExpr::CreateNode(node) => {
                let CreateNode { input, nodes } = node;
                assert(children(unmapped)[0] == *input);
                let input = match f(*input) {
                    Ok(v) => v,
                    Err(e) => return Err(e),
                };
                Ok(PlanExpr::CreateNode(CreateNode { input: Box::new(input), nodes }))
            },
            PlanExpr::CreateRel(node) => {
                let CreateRel { input, rels } = node;
                assert(children(unmapped)[0] == *input);
                let input = match f(*input) {
                    Ok(v) => v,
                    Err(e) => return Err(e),
                };
                Ok(PlanExpr::CreateRel(CreateRel { input: Box::new(input), rels }))
            },
            PlanExpr::Load(node) => {
                Ok(PlanExpr::Load(node))
            },
            PlanExpr::CrossProduct(node) => {
                let CrossProduct { left, right } = node;
                assert(children(unmapped)[0] == *left);
                assert(children(unmapped)[1] == *right);
                let ghost l0 = *left;
                let left = match f(*left) {
                    Ok(v) => v,
                    Err(e) => return Err(e),
                };
                let right = match f(*right) {
                    Ok(v) => v,
                    Err(e) => {
                        proof {
                            assert(call_ensures(f, (l0,), Ok(left)));
                            assert(maps_ok(f, children(unmapped)[0]));
                        }
                        return Err(e);
                    },
                };
                Ok(PlanExpr::CrossProduct(CrossProduct { left: Box::new(left), right: Box::new(right) }))
            },
            PlanExpr::Aggregate(node) => {
                let Aggregate { input, group_by, aggregate } = node;
                assert(children(unmapped)[0] == *input);
                let input = match f(*input) {
                    Ok(v) => v,
                    Err(e) => return Err(e),
                };
                Ok(PlanExpr::Aggregate(Aggregate { input: Box::new(input), group_by, aggregate }))
            },
            PlanExpr::Distinct(node) => {
                let Distinct { input, group_exprs } = node;
                assert(children(unmapped)[0] == *input);
                let input = match f(*input) {
                    Ok(v) => v,
                    Err(e) => return Err(e),
                };
                Ok(PlanExpr::Distinct(Distinct { input: Box::new(input), group_exprs }))
            },
            PlanExpr::Project(node) => {
                let Project { input, projections } = node;
                assert(children(unmapped)[0] == *input);
                let input = match f(*input) {
                    Ok(v) => v,
                    Err(e) => return Err(e),
                };
                Ok(PlanExpr::Project(Project { input: Box::new(input), projections }))
            },
            PlanExpr::Sort(node) => {
                let Sort { input, items } = node;
                assert(children(unmapped)[0] == *input);
                let input = match f(*input) {
                    Ok(v) => v,
                    Err(e) => return Err(e),
                };
                Ok(PlanExpr::Sort(Sort { input: Box::new(input), items }))
            },
            PlanExpr::Filter(node) => {
                let Filter { input, condition } = node;
                assert(children(unmapped)[0] == *input);
                let input = match f(*input) {
                    Ok(v) => v,
                    Err(e) => return Err(e),
                };
                Ok(PlanExpr::Filter(Filter { input: Box::new(input), condition }))
            },
            PlanExpr::Pagination(node) => {
                let Pagination { input, offset, limit } = node;
                assert(children(unmapped)[0] == *input);
                let input = match f(*input) {
                    Ok(v) => v,
                    Err(e) => return Err(e),
                };
                Ok(PlanExpr::Pagination(Pagination { input: Box::new(input), offset, limit }))
            },
            PlanExpr::Empty(node) => {
                Ok(PlanExpr::Empty(node))
            },
            PlanExpr::BlackHole(node) => {
                let BlackHole { input } = node;
                assert(children(unmapped)[0] == *input);
                let input = match f(*input) {
                    Ok(v) => v,
                    Err(e) => return Err(e),
                };
                Ok(PlanExpr::BlackHole(BlackHole { input: Box::new(input) }))
            },
        }
    }
}


impl PlanExpr {
    /// Applies `f` to every direct input, left to right, and rebuilds this node from the results.
    pub fn map_children<F>(self, f: F) -> (r: PlanExpr) where F: Fn(PlanExpr) -> PlanExpr,
        requires
            forall|i: int| 0 <= i < children(self).len() ==> call_requires(f, (#[trigger] children(self)[i],)),
        ensures
            children_rewritten(self, f, r),
    {
        let fr = &f;
        let g = move |p: PlanExpr| -> (res: Result<PlanExpr, ()>)
            requires
                call_requires(fr, (p,)),
            ensures
                res matches Ok(q) && call_ensures(fr, (p,), q),
            { Ok(fr(p)) };
        match self.map_children_result(g) {
            Ok(q) => q,
            Err(_) => {
                proof {
                    assert(false);
                }
                vstd::pervasive::unreached()
            },
        }
    }
}

/// Whether executing the plan writes to the store.
pub fn plan_is_write(plan: &PlanExpr) -> (r: bool)
    ensures
        r == is_write(*plan),
    decreases plan,
{
    proof {
        lemma_children_decrease(*plan);
    }
    match plan {
        PlanExpr::CreateNode(_) | PlanExpr::CreateRel(_) => true,
        _ => {
            let inputs = plan.inputs();
            let mut i: usize = 0;
            while i < inputs.len()
                invariant
                    i <= inputs.len(),
                    inputs@.len() == children(*plan).len(),
                    forall|k: int| 0 <= k < inputs@.len() ==> *(#[trigger] inputs@[k]) == children(*plan)[k],
                    forall|k: int| 0 <= k < children(*plan).len() ==> decreases_to!(*plan => #[trigger] children(*plan)[k]),
                    forall|k: int| 0 <= k < i ==> !is_write(#[trigger] children(*plan)[k]),
                decreases inputs.len() - i,
            {
                assert(*inputs@[i as int] == children(*plan)[i as int]);
                if plan_is_write(inputs[i]) {
                    return true;
                }
                i = i + 1;
            }
            false
        },
    }
}

/// Rebuilding a node from its own inputs gives the node back, and the inputs of a rebuilt node are
/// the ones it was rebuilt from.
pub proof fn lemma_with_children(p: PlanExpr, cs: Seq<PlanExpr>)
    ensures
        with_children(p, children(p)) == p,
        cs.len() == children(p).len() ==> children(with_children(p, cs)) =~= cs,
{
}

/// Rewriting every input with a function that returns its argument unchanged gives the node back.
pub proof fn lemma_map_children_identity<F: Fn(PlanExpr) -> Result<PlanExpr, E>, E>(
    p: PlanExpr,
    f: F,
    r: Result<PlanExpr, E>,
)
    requires
        forall|x: PlanExpr, y: Result<PlanExpr, E>| call_ensures(f, (x,), y) ==> y == Ok::<PlanExpr, E>(x),
        children_mapped(p, f, r),
    ensures
        r == Ok::<PlanExpr, E>(p),
{
    match r {
        Ok(q) => {
            assert forall|i: int| 0 <= i < children(p).len() implies children(q)[i] == children(p)[i] by {
                assert(call_ensures(f, (children(p)[i],), Ok::<PlanExpr, E>(children(q)[i])));
            }
            assert(children(q) =~= children(p));
            lemma_with_children(p, children(q));
        },
        Err(e) => {
            let i = choose|i: int| 0 <= i < children(p).len() && call_ensures(f, (#[trigger] children(p)[i],), Err::<PlanExpr, E>(e));
            assert(call_ensures(f, (children(p)[i],), Err::<PlanExpr, E>(e)));
        },
    }
}


/// Rewriting the inputs with `f` is rewriting them with `g`, a function that wraps each result of
/// `f` in `Ok` and never fails: with `g` the rewrite never fails, and it gives exactly the plans
/// that rewriting with `f` may give.
pub proof fn lemma_map_children_wraps_result<F: Fn(PlanExpr) -> PlanExpr, G: Fn(PlanExpr) -> Result<PlanExpr, E>, E>(
    p: PlanExpr,
    f: F,
    g: G,
)
    requires
        forall|x: PlanExpr, y: Result<PlanExpr, E>|
            #[trigger] call_ensures(g, (x,), y) ==> (y matches Ok(q) && call_ensures(f, (x,), q)),
        forall|x: PlanExpr, q: PlanExpr| #[trigger] call_ensures(f, (x,), q) ==> call_ensures(g, (x,), Ok::<PlanExpr, E>(q)),
    ensures
        forall|r: Result<PlanExpr, E>| #[trigger] children_mapped(p, g, r) ==> (r matches Ok(q) && children_rewritten(p, f, q)),
        forall|q: PlanExpr| #[trigger] children_rewritten(p, f, q) ==> children_mapped(p, g, Ok::<PlanExpr, E>(q)),
{
    assert forall|r: Result<PlanExpr, E>| #[trigger] children_mapped(p, g, r) implies (r matches Ok(q) && children_rewritten(p, f, q)) by {
        match r {
            Ok(q) => {
                assert forall|i: int| 0 <= i < children(p).len() implies call_ensures(f, (#[trigger] children(p)[i],), children(q)[i]) by {
                    assert(call_ensures(g, (children(p)[i],), Ok::<PlanExpr, E>(children(q)[i])));
                }
            },
            Err(e) => {
                let j = choose|j: int| 0 <= j < children(p).len() && call_ensures(g, (#[trigger] children(p)[j],), Err::<PlanExpr, E>(e))
                    && forall|k: int| 0 <= k < j ==> maps_ok(g, #[trigger] children(p)[k]);
                assert(call_ensures(g, (children(p)[j],), Err::<PlanExpr, E>(e)));
            },
        }
    }
    assert forall|q: PlanExpr| #[trigger] children_rewritten(p, f, q) implies children_mapped(p, g, Ok::<PlanExpr, E>(q)) by {
        assert forall|i: int| 0 <= i < children(p).len() implies call_ensures(g, (#[trigger] children(p)[i],), Ok::<PlanExpr, E>(children(q)[i])) by {
            assert(call_ensures(f, (children(p)[i],), children(q)[i]));
        }
    }
}

} // verus!
