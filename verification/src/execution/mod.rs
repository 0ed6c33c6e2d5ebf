pub mod error;
pub mod pagination;
pub mod unwind;
pub mod hash_aggregate;
pub mod ddl;
pub mod expr;
pub mod profile;
pub mod operators;
pub mod chunk_builder;
pub mod scan;
pub mod create;
pub mod task;
