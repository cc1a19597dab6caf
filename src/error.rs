use vstd::prelude::*;

verus! {

/// Why an operation on the marketplace or on a listing was refused.
/// Every operation that returns one of these has left its records unchanged.
#[derive(Clone, Copy, PartialEq, Eq, Structural, Debug)]
pub enum MarketplaceError {
    /// The listing has already been bought.
    AlreadySold,
    /// A record that the operation refers to does not exist.
    RecordNotFound,
    /// The pricing parameters are unusable: a sale horizon of zero days,
    /// a floor above the cap, or an initial price outside the bounds.
    InvalidConfiguration,
    /// The sales schedule gives no usable ratio: no time has elapsed, the
    /// clock reads before the start, or no supply is planned.
    NumericDegenerate,
    /// The price computation needs a quantity beyond the 128-bit integers
    /// that hold it, and the price is not known to sit at a bound.
    ArithmeticOverflow,
    /// A listing's description is longer than its reserved byte budget.
    DescriptionTooLong,
}

} // verus!
