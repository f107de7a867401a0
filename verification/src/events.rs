use vstd::prelude::*;

verus! {

/// How a successful claim was settled: a share of the whole pool, or the
/// deposits given back.
#[derive(Clone, Copy, Debug, PartialEq, Eq, Structural)]
pub enum ClaimKind {
    Payout,
    Refund,
}

} // verus!
