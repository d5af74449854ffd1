//! Snapshot of the strategy configuration that the risk core reads.

use vstd::prelude::*;

verus! {

/// Configuration snapshot owned by the outer strategy engine. The risk core
/// reads only whether the traded instrument is a derivative contract; the
/// rest of the configuration is held by the embedding system.
#[derive(Clone, Copy, PartialEq, Eq, Structural, Debug)]
pub struct State {
    /// Whether the strategy trades a derivative instrument rather than a
    /// spot balance.
    pub is_deriv: bool,
}

} // verus!
