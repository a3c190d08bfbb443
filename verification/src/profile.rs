//! Configuration profiles that control enforcement.

use vstd::prelude::*;

verus! {

/// Named configuration profile.
#[derive(Debug, Clone, Copy, PartialEq, Eq, Structural)]
pub enum Profile {
    /// Rules are enforced and approvals required.
    Production,
    /// Rules are logged only, and approvals are given at once.
    Development,
}

} // verus!
