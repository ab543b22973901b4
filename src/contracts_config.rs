//! Deposit schedule for the smart-contract subsystem.
use vstd::prelude::*;

use crate::Balance;

verus! {

/// One thousandth of a cent, in the native token's smallest unit.
pub const MILLICENTS: Balance = 1_000_000_000;

/// One cent, in the native token's smallest unit.
pub const CENTS: Balance = 1_000 * MILLICENTS;

/// Deposit owed for `items` storage entries holding `bytes` bytes in total.
pub open spec fn deposit_spec(items: u32, bytes: u32) -> int {
    items * 15 * CENTS + bytes * 6 * CENTS
}

/// Storage deposit of the contract subsystem: fifteen cents per item and six
/// cents per byte.
pub fn deposit(items: u32, bytes: u32) -> (r: Balance)
    ensures
        r == deposit_spec(items, bytes),
{
    assert(items * 15 * CENTS <= 0x1_0000_0000 * 15 * CENTS) by (nonlinear_arith);
    assert(bytes * 6 * CENTS <= 0x1_0000_0000 * 6 * CENTS) by (nonlinear_arith);
    items as Balance * 15 * CENTS + (bytes as Balance) * 6 * CENTS
}

} // verus!
