//! Errors of the compiler driver, which turns generated code into a native
//! executable.

use vstd::prelude::*;
use crate::codegen::CodegenError;

verus! {

/// A driver error (linking, runtime lookup, wrapping codegen).
#[derive(Debug, Clone, PartialEq, Eq)]
pub struct DriverError {
    pub message: String,
}

impl From<CodegenError> for DriverError {
    fn from(err: CodegenError) -> (r: Self) {
        DriverError { message: err.message }
    }
}

impl vstd::std_specs::convert::FromSpecImpl<CodegenError> for DriverError {
    open spec fn obeys_from_spec() -> bool {
        true
    }

    open spec fn from_spec(err: CodegenError) -> DriverError {
        DriverError { message: err.message }
    }
}

} // verus!
