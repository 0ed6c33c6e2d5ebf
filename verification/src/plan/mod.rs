pub mod expr;
pub mod plan_node;
