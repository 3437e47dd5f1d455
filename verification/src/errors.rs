use vstd::prelude::*;

verus! {

/// The ways a purchase attempt can fail. All three are terminal for the
/// attempted call; none leaves any state modified.
#[derive(Clone, Copy, Debug, PartialEq, Eq, Structural)]
pub enum ErrorCode {
    /// The auction has closed (its whole supply was sold).
    AuctionNotActive,
    /// The buyer's available balance is below the required payment.
    InsufficientFunds,
    /// The payment buys zero whole tokens.
    ZeroPurchase,
}

} // verus!
