//! Errors raised while evaluating expressions and executing plans.
use vstd::prelude::*;

use crate::data_type::LogicalType;

verus! {

pub enum EvalError {
    GetOrCreateTokenError(String),
    MapbError(String),
    TypeError(String),
    FieldNotFound(String),
    MaterializeNodeError(String),
    InvalidArgument { context: String, expected: String, actual: String },
    ArithmeticOverflow { op: String, args: Vec<String> },
}

impl EvalError {
    pub fn get_or_create_token_error(key: &str) -> (r: EvalError)
        ensures
            r matches EvalError::GetOrCreateTokenError(m) && m@ == key@,
    {
        EvalError::GetOrCreateTokenError(key.to_owned())
    }

    pub fn mapb_error(msg: &str) -> (r: EvalError)
        ensures
            r matches EvalError::MapbError(m) && m@ == msg@,
    {
        EvalError::MapbError(msg.to_owned())
    }

    pub fn type_error(msg: &str) -> (r: EvalError)
        ensures
            r matches EvalError::TypeError(m) && m@ == msg@,
    {
        EvalError::TypeError(msg.to_owned())
    }

    pub fn field_not_found(msg: &str) -> (r: EvalError)
        ensures
            r matches EvalError::FieldNotFound(m) && m@ == msg@,
    {
        EvalError::FieldNotFound(msg.to_owned())
    }

    pub fn materialize_node_error(msg: &str) -> (r: EvalError)
        ensures
            r matches EvalError::MaterializeNodeError(m) && m@ == msg@,
    {
        EvalError::MaterializeNodeError(msg.to_owned())
    }

    pub fn invalid_argument(context: &str, expected: &str, actual: &str) -> (r: EvalError)
        ensures
            r matches EvalError::InvalidArgument { context: c, expected: e, actual: a } && c@ == context@
                && e@ == expected@ && a@ == actual@,
    {
        EvalError::InvalidArgument {
            context: context.to_owned(),
            expected: expected.to_owned(),
            actual: actual.to_owned(),
        }
    }

    pub fn arithmetic_overflow(op: &str, args: Vec<String>) -> (r: EvalError)
        ensures
            r matches EvalError::ArithmeticOverflow { op: o, args: a } && o@ == op@ && a == args,
    {
        EvalError::ArithmeticOverflow { op: op.to_owned(), args }
    }
}

/// Errors of plan execution.
pub enum ExecError {
    Build(String),
    Store(String),
    Eval(EvalError),
    Io(String),
    TypeMismatch { context: String, expected: String, actual: LogicalType },
    Channel(String),
    ConstraintViolation { constraint: String, reason: String },
    Panic(String),
}

impl ExecError {
    pub fn type_mismatch(context: &str, expected: &str, actual: LogicalType) -> (r: ExecError)
        ensures
            r matches ExecError::TypeMismatch { context: c, expected: e, actual: a } && c@ == context@
                && e@ == expected@ && a == actual,
    {
        ExecError::TypeMismatch { context: context.to_owned(), expected: expected.to_owned(), actual }
    }

    pub fn io_error(msg: &str) -> (r: ExecError)
        ensures
            r matches ExecError::Io(m) && m@ == msg@,
    {
        ExecError::Io(msg.to_owned())
    }

    pub fn panic(msg: &str) -> (r: ExecError)
        ensures
            r matches ExecError::Panic(m) && m@ == msg@,
    {
        ExecError::Panic(msg.to_owned())
    }
}

} // verus!
