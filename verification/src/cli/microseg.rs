//! The standalone `microseg` command group.
use vstd::prelude::*;

verus! {

/// `caiman microseg` (standalone form).
pub enum MicrosegCmd {
    /// Manage policies.
    Policy(PolicyAction),
    /// Deny statistics.
    Stats,
}

/// `caiman microseg policy` (standalone form).
pub enum PolicyAction {
    List,
    Get { name: String },
    Apply { file: String },
}

} // verus!
