//! A proof-of-existence registry: a party claims a content fingerprint and
//! becomes its sole owner until it revokes the claim. Beside it stand the
//! storage-deposit formulas of the host runtime.
use vstd::prelude::*;

pub mod assets_config;
pub mod contracts_config;
pub mod laws;
pub mod registry;

verus! {

/// Amount of the host chain's native currency.
pub type Balance = u128;

} // verus!
