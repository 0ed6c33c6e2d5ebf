//! Rewrite rules of the plan optimizer.
use vstd::prelude::*;

use crate::plan::plan_node::PlanExpr;

verus! {

#[derive(Debug, Clone, Copy, PartialEq, Eq, Structural)]
pub enum RewriteOrder {
    TopDown,
    BottomUp,
}

/// `Apply(lhs, Argument)` rewrites to `lhs`: applying an argument leaf adds nothing.
pub struct UnnestApplyRule;

impl UnnestApplyRule {
    pub fn name(&self) -> (r: &'static str)
        ensures
            r@ == "unnest_apply"@,
    {
        "unnest_apply"
    }

    pub fn order(&self) -> (r: RewriteOrder)
        ensures
            r == RewriteOrder::BottomUp,
    {
        RewriteOrder::BottomUp
    }

    /// The rewritten plan, or `None` when the rule does not apply.
    pub fn apply(&self, plan: PlanExpr) -> (r: Option<PlanExpr>)
        ensures
            r == match plan {
                PlanExpr::Apply(node) => if *node.right is Argument {
                    Some(*node.left)
                } else {
                    None
                },
                _ => None,
            },
    {
        match plan {
            PlanExpr::Apply(node) => {
                match *node.right {
                    PlanExpr::Argument(_) => Some(*node.left),
                    _ => None,
                }
            },
            _ => None,
        }
    }
}

} // verus!
