//! Errors of a database session.
use vstd::prelude::*;

use crate::execution::error::ExecError;
use crate::execution::expr::BuildError;

verus! {

pub enum Error {
    ExecError(ExecError),
    BuildError(BuildError),
    /// A constraint of this name exists already.
    ConstraintAlreadyExists(String),
    /// No constraint has this name.
    ConstraintNotFound(String),
    Panic(String),
}

} // verus!
