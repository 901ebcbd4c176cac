use vstd::prelude::*;
use vstd::string::StringExecFns;

verus! {

/// The kinds of error a trace request can report.
#[derive(Debug, Clone, Copy, PartialEq, Eq, Structural)]
pub enum DebugOffErrType {
    /// The kernel refused the request: a tracer already holds the thread.
    AlreadyTraced,
}

/// The error returned when the kernel refuses a trace request.
#[derive(Debug, Clone, Copy, PartialEq, Eq, Structural)]
pub struct DebugOffErr {
    pub err_type: DebugOffErrType,
}

impl DebugOffErr {
    /// The human-readable message for this error.
    pub fn message(&self) -> (m: String)
        ensures
            m@ == "Error: AlreadyTraced"@,
    {
        match self.err_type {
            DebugOffErrType::AlreadyTraced => String::from_str("Error: AlreadyTraced"),
        }
    }
}

} // verus!
