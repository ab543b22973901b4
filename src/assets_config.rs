//! Deposit schedule for the fungible-asset subsystem.
use vstd::prelude::*;

use crate::Balance;

verus! {

/// One thousandth of the native token, in its smallest unit.
pub const FINNEY: Balance = 1_000_000_000_000_000;

/// Deposit owed for storing `items` entries holding `bytes` bytes in total.
pub open spec fn deposit_spec(items: u32, bytes: u32) -> int {
    (items + bytes) * FINNEY / 1_000_000
}

/// Storage deposit of the asset subsystem: a millionth of a finney per item
/// and per byte, that is `(items + bytes) * FINNEY / 1_000_000`.
pub fn deposit(items: u32, bytes: u32) -> (r: Balance)
    ensures
        r == deposit_spec(items, bytes),
{
    assert((items + bytes) * FINNEY <= 0x1_0000_0000_0000_0000 * FINNEY) by (nonlinear_arith)
        requires
            items + bytes <= 0x1_0000_0000_0000_0000,
    ;
    (items as Balance + bytes as Balance) * FINNEY / 1_000_000
}

} // verus!
