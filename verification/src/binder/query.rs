//! The intermediate representation of a single query: a sequence of parts, each ending with the
//! projection of a `WITH` or `RETURN` clause.
use vstd::prelude::*;

use crate::plan::expr::{Expr, VariableName};
use crate::plan::plan_node::SortItem;
use crate::scalar::ScalarValue;

verus! {

/// The variables visible at the start of a query part.
pub type Bindings = Vec<VariableName>;

/// `SKIP` and `LIMIT` of a projection; `limit == u64::MAX` means no limit.
pub struct Pagination {
    pub offset: u64,
    pub limit: u64,
}

impl Pagination {
    pub fn unbounded() -> (r: Pagination)
        ensures
            r.offset == 0,
            r.limit == u64::MAX,
    {
        Pagination { offset: 0, limit: u64::MAX }
    }
}

/// A `SKIP` or `LIMIT` whose expression is not a non-negative integer constant; it carries the
/// text of the expression.
pub enum PaginationError {
    InvalidOffset(String),
    InvalidLimit(String),
}

/// The count that a bound `SKIP` or `LIMIT` expression gives: a non-negative integer constant.
pub open spec fn pagination_count(e: Expr) -> Option<u64> {
    match e {
        Expr::Constant(c) => match c.data {
            Some(ScalarValue::Integer(i)) => if i >= 0 {
                Some(i as u64)
            } else {
                None
            },
            _ => None,
        },
        _ => None,
    }
}

fn constant_count(e: &Expr) -> (r: Option<u64>)
    ensures
        r == pagination_count(*e),
{
    match e {
        Expr::Constant(c) => match &c.data {
            Some(ScalarValue::Integer(i)) => if *i >= 0 {
                Some(*i as u64)
            } else {
                None
            },
            _ => None,
        },
        _ => None,
    }
}

/// The pagination of a projection from its bound `SKIP` and `LIMIT` expressions, each given with
/// its text: both must be non-negative integer constants, and a missing one leaves the default
/// (no offset, no limit).
pub fn bind_pagination(skip: Option<(&Expr, &str)>, limit: Option<(&Expr, &str)>) -> (r: Result<
    Pagination,
    PaginationError,
>)
    ensures
        match skip {
            Some((e, text)) if pagination_count(*e) is None => r matches Err(PaginationError::InvalidOffset(t))
                && t@ == text@,
            _ => match limit {
                Some((e, text)) if pagination_count(*e) is None => r matches Err(PaginationError::InvalidLimit(t))
                    && t@ == text@,
                _ => r matches Ok(p) && p.offset == (match skip {
                    Some((e, _)) => pagination_count(*e)->0,
                    None => 0u64,
                }) && p.limit == (match limit {
                    Some((e, _)) => pagination_count(*e)->0,
                    None => u64::MAX,
                }),
            },
        },
{
    let mut pagination = Pagination::unbounded();
    if let Some((e, text)) = skip {
        match constant_count(e) {
            Some(n) => pagination.offset = n,
            None => return Err(PaginationError::InvalidOffset(text.to_owned())),
        }
    }
    if let Some((e, text)) = limit {
        match constant_count(e) {
            Some(n) => pagination.limit = n,
            None => return Err(PaginationError::InvalidLimit(text.to_owned())),
        }
    }
    Ok(pagination)
}

pub struct RegularProjection {
    pub items: Vec<(VariableName, Expr)>,
    pub order_by: Vec<SortItem>,
    pub pagination: Pagination,
    pub filter: Vec<Expr>,
    pub output: Vec<VariableName>,
}

pub struct DistinctProjection {
    pub group_by: Vec<(VariableName, Expr)>,
    pub order_by: Vec<SortItem>,
    pub pagination: Pagination,
    pub filter: Vec<Expr>,
}

pub struct AggregateProjection {
    pub group_by: Vec<(VariableName, Expr)>,
    pub aggregate: Vec<(VariableName, Expr)>,
    pub post_projection: Vec<(VariableName, Expr)>,
    pub order_by: Vec<SortItem>,
    pub pagination: Pagination,
    pub filter: Vec<Expr>,
}

pub enum Projection {
    Regular(RegularProjection),
    Distinct(DistinctProjection),
    Aggregate(AggregateProjection),
}

pub enum QueryProjection {
    Project(Projection),
}

pub struct IrSingleQueryPart {
    pub input_bindings: Bindings,
    pub projection: Option<QueryProjection>,
}

impl IrSingleQueryPart {
    pub fn new(input_bindings: Bindings) -> (r: IrSingleQueryPart)
        ensures
            r.input_bindings == input_bindings,
            r.projection is None,
    {
        IrSingleQueryPart { input_bindings, projection: None }
    }

    pub fn with_projection(&mut self, projection: QueryProjection)
        ensures
            final(self).input_bindings == old(self).input_bindings,
            final(self).projection == Some(projection),
    {
        self.projection = Some(projection);
    }
}

pub struct IrSingleQuery {
    pub parts: Vec<IrSingleQueryPart>,
}

} // verus!
