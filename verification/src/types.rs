//! The plain data types of the ledger: identities, storage keys, the campaign
//! summary, the donation notification, and the error taxonomy.

use vstd::prelude::*;

verus! {

/// An opaque principal (an account or address).  The host is responsible for
/// authenticating a caller as one of these; the ledger only compares them.
#[derive(Clone, Copy, PartialEq, Eq, Structural, Hash, Debug)]
pub struct Identity {
    pub id: u64,
}

/// Why an operation was refused.  Every failure is a hard abort of the single
/// operation: no error leaves a partial write behind.
#[derive(Clone, Copy, PartialEq, Eq, Structural, Debug)]
pub enum LedgerError {
    /// `initialize` was called on a store that already holds a campaign.
    AlreadyInitialized,
    /// `initialize` was called with a goal that is not strictly positive.
    InvalidGoal,
    /// `donate` was called before the campaign was initialized.
    NotInitialized,
    /// `donate` was called with an amount that is not strictly positive.
    InvalidAmount,
    /// The authenticated caller does not control the donor identity.
    Unauthorized,
    /// The donor's cumulative total would exceed `i128::MAX`.
    DonorOverflow,
    /// The campaign-wide total would exceed `i128::MAX`.
    CampaignOverflow,
}

/// The keys under which the ledger persists its state.
#[derive(Clone)]
pub enum DataKey {
    Initialized,
    Admin,
    Goal,
    TotalRaised,
    /// The cumulative amount contributed by one donor.
    Donation(Identity),
    Donors,
}

/// A read-only summary of the campaign, as `get_campaign` reports it.
#[derive(Clone, Copy, PartialEq, Eq, Structural, Debug)]
pub struct Campaign {
    pub admin: Identity,
    pub goal: i128,
    pub total_raised: i128,
    pub donors: u32,
}

/// The notification payload emitted to observers on each successful donation.
#[derive(Clone, Copy, PartialEq, Eq, Structural, Debug)]
pub struct DonationEvent {
    /// Who donated.
    pub donor: Identity,
    /// The amount of this single donation.
    pub amount: i128,
    /// The campaign-wide total after this donation was committed.
    pub total_raised: i128,
}

} // verus!
