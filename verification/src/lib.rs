//! A per-account address book with one-time sponsorship.
//!
//! Each owner account keeps a book of contacts, every contact pairing a
//! human-readable alias with an address handle. An owner may pay a fixed
//! sponsorship amount to a contact exactly once; after that the contact is
//! frozen and can no longer be edited or deleted.
//!
//! The library is a pure state machine: authentication, the funds transfer,
//! persistence and the clock are external collaborators whose outcomes are
//! handed in as plain values.

use vstd::prelude::*;

pub mod contact;
pub mod laws;
pub mod registry;
pub mod sponsor;
pub mod store;

pub use contact::Contact;
pub use registry::ContactsContract;
pub use sponsor::SponsoredSet;
pub use store::ContactBook;

verus! {

/// Fixed sponsorship amount, in stroops (ten-millionths of one unit of the
/// native token).
pub const COFFEE_AMOUNT: i128 = 150_000_000;

/// Proof of control over an account, issued by the surrounding environment
/// after it has authenticated the caller. Every mutating operation demands
/// one and rejects it when it names a different account than the one whose
/// state the call would touch.
#[derive(Clone, Copy, Debug)]
pub struct Auth {
    pub account: u64,
}

/// The constraint violations that abort an operation with no state change,
/// each one distinguishable from a plain "not found" outcome.
#[derive(Clone, Copy, Debug, PartialEq, Eq, Structural)]
pub enum ContactError {
    /// A mutating call carried an authentication witness for a different
    /// account.
    Unauthenticated,
    /// Adding an alias the owner's book already contains.
    DuplicateAlias,
    /// Adding or editing to an address already bound to a different alias of
    /// the same owner.
    DuplicateAddress,
    /// Editing or deleting a contact that has been sponsored.
    SponsoredLocked,
    /// Sponsoring an alias whose sponsorship is already recorded.
    AlreadySponsored,
    /// The external transfer did not succeed, so nothing was recorded.
    TransferFailed,
}

/// Everything the external transfer collaborator needs for one sponsorship
/// payment: payer, payee, the transfer medium, and the fixed amount.
#[derive(Clone, Copy, Debug, PartialEq, Eq, Structural)]
pub struct TransferRequest {
    pub from: u64,
    pub to: u64,
    pub token: u64,
    pub amount: i128,
}

} // verus!
