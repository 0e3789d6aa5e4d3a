//! The plain values that the ledger is made of.

use vstd::prelude::*;

verus! {

/// An account, as the ledger knows it.
pub type AccountId = u64;

/// The number by which a kitty is known. Numbers are given out in rising
/// order, the first being one.
pub type KittyIndex = u32;

/// A kitty is its genome: sixteen bytes, fixed when the kitty comes into being.
#[derive(Clone, Copy, Debug, PartialEq, Eq)]
pub struct Kitty(pub [u8; 16]);

/// The identifier of a lock on funds.
#[derive(Clone, Copy, Debug, PartialEq, Eq)]
pub struct LockId(pub [u8; 8]);

/// Why the ledger turned a call down.
#[derive(Clone, Copy, Debug, PartialEq, Eq)]
pub enum Error {
    /// Every number that a kitty can have has been given out.
    KittiesCountOverflow,
    /// The account does not own a kitty of that number.
    InvalidaKittyId,
    /// A kitty cannot be bred with itself.
    RequireDifferentParent,
    /// The account could not set aside the funds that the call asked for.
    InsufficientFunds,
}

} // verus!
