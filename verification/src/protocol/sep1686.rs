//! Task status as the SEP-1686 protocol extension has it.

use vstd::prelude::*;

verus! {

/// Task status on the wire.
#[derive(Debug, Clone, Copy, PartialEq, Eq, Structural)]
pub enum Sep1686Status {
    Working,
    InputRequired,
    Completed,
    Failed,
    Cancelled,
}

impl Sep1686Status {
    /// The name of the status on the wire.
    pub open spec fn name(self) -> Seq<char> {
        match self {
            Sep1686Status::Working => "working"@,
            Sep1686Status::InputRequired => "input_required"@,
            Sep1686Status::Completed => "completed"@,
            Sep1686Status::Failed => "failed"@,
            Sep1686Status::Cancelled => "cancelled"@,
        }
    }
}

} // verus!
