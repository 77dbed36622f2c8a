//! Plain value types shared by every module.

use vstd::prelude::*;

verus! {

/// An account, modelled as a 128-bit key.
pub type AccountId = u128;

/// A native-currency amount.
pub type Balance = u128;

/// A block number.
pub type BlockNumber = u128;

} // verus!
