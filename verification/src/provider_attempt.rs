//! Provider-call evidence: the lifecycle phases of one provider call.

use vstd::prelude::*;

verus! {

/// Lifecycle phase for one provider call.
#[derive(Clone, Copy, Debug, PartialEq, Eq, Structural)]
pub enum ProviderAttemptPhase {
    Started,
    Completed,
}

} // verus!
