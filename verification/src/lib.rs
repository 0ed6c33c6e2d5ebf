pub mod array;
pub mod binder;
pub mod bits;
pub mod catalog;
pub mod data_type;
pub mod database;
pub mod execution;
pub mod function;
pub mod ir;
pub mod optimizer;
pub mod plan;
pub mod scalar;
