//! The error kinds the orchestrator reports.  Callers act on the kind, not
//! on sub-cases.

use vstd::prelude::*;

verus! {

/// Failure kinds, by what triggered them: a bad request field, a storage
/// failure, a failing external tool, an explicit cancel, a missing task or
/// file, or a step skipped because its target does not exist.
#[derive(Clone, Copy, Debug, PartialEq, Eq, Structural)]
pub enum AppError {
    Validation,
    Storage,
    Subprocess,
    Cancelled,
    NotFound,
    Skip,
}

impl AppError {
    /// A short description of the error kind.
    pub fn as_str(&self) -> (r: &'static str)
        ensures
            r@ == spec_error_name(*self),
    {
        match self {
            AppError::Validation => "validation error",
            AppError::Storage => "storage error",
            AppError::Subprocess => "subprocess error",
            AppError::Cancelled => "task cancelled",
            AppError::NotFound => "not found",
            AppError::Skip => "step skipped",
        }
    }
}

/// The description `as_str` gives for each error kind.
pub open spec fn spec_error_name(e: AppError) -> Seq<char> {
    match e {
        AppError::Validation => "validation error"@,
        AppError::Storage => "storage error"@,
        AppError::Subprocess => "subprocess error"@,
        AppError::Cancelled => "task cancelled"@,
        AppError::NotFound => "not found"@,
        AppError::Skip => "step skipped"@,
    }
}

} // verus!
