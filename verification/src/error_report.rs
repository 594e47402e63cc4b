//! The descriptive payload attached to a failed per-node lookup. It is
//! forwarded to the caller's error observer and never aborts aggregation.

use vstd::prelude::*;

verus! {

/// The mathematical content of an [`ErrorReport`].
pub struct ErrorReportModel {
    pub operation: Seq<char>,
    pub path: Seq<char>,
}

/// Describes one failed lookup: the operation that failed and the node it
/// failed for.
#[derive(Clone, Debug)]
pub struct ErrorReport {
    /// The operation that failed.
    pub operation: String,
    /// The identifier of the node the operation failed for.
    pub path: String,
}

impl View for ErrorReport {
    type V = ErrorReportModel;

    open spec fn view(&self) -> ErrorReportModel {
        ErrorReportModel { operation: self.operation@, path: self.path@ }
    }
}

impl ErrorReport {
    /// Describe a failed lookup.
    pub fn new(operation: String, path: String) -> (r: Self)
        ensures
            r@.operation == operation@,
            r@.path == path@,
    {
        ErrorReport { operation, path }
    }
}

} // verus!
