//! Messages exchanged with the outer strategy engine.

use vstd::prelude::*;
use crate::decimal::Decimal;

verus! {

/// An open derivative position as the outer strategy engine reports it.
/// The risk core inspects only whether such a position is present; the
/// margin it carries is passed to the allocation engine separately.
#[derive(Clone, Copy, PartialEq, Eq, Structural, Debug)]
pub struct WrappedPosition {
    /// Whether the position is long.
    pub is_long: bool,
    /// Position size.
    pub quantity: Decimal,
    /// Price at which the position was entered.
    pub entry_price: Decimal,
    /// Notional capital locked by the position.
    pub margin: Decimal,
}

} // verus!
