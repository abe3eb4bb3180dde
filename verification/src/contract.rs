//! The executable ledger: an explicit store handle and the contract
//! operations over it.
//!
//! [`Store`] stands for the host's persistent key-value store, with one field
//! per fixed key (`None` meaning the key is absent) and one record per donor.
//! Every operation takes the store explicitly; `donate` additionally takes
//! the identity the host has authenticated, in place of a hidden
//! authorization capability.  Each operation is proved to return exactly what
//! the model in [`crate::model`] says and to leave exactly the state the
//! model says.

use vstd::pervasive::VecAdditionalExecFns;
use vstd::prelude::*;

use crate::model::{
    abs_donations, amount_of, has_donor, lemma_donate_step, lemma_has_donor_push,
    lemma_upsert_absent, lemma_upsert_at_index, upsert, LedgerModel,
};
use crate::types::{Campaign, DataKey, DonationEvent, Identity, LedgerError};

verus! {

/// The persistent state of the ledger, as the host would hold it: one field
/// per storage key, absent keys as `None`, and the per-donor records.
pub struct Store {
    initialized: bool,
    admin: Option<Identity>,
    goal: Option<i128>,
    total_raised: Option<i128>,
    donors: Option<u32>,
    donations: Vec<(Identity, i128)>,
}

impl View for Store {
    type V = LedgerModel;

    closed spec fn view(&self) -> LedgerModel {
        LedgerModel {
            initialized: self.initialized,
            admin: self.admin,
            goal: match self.goal {
                Some(g) => Some(g as int),
                None => None,
            },
            total_raised: match self.total_raised {
                Some(t) => Some(t as int),
                None => None,
            },
            donors: match self.donors {
                Some(d) => Some(d as int),
                None => None,
            },
            donations: abs_donations(self.donations),
        }
    }
}

impl Store {
    /// A fresh store, before any operation ran: every key is absent.
    pub fn new() -> (store: Store)
        ensures
            store@ == LedgerModel::empty(),
            store@.wf(),
    {
        let store = Store {
            initialized: false,
            admin: None,
            goal: None,
            total_raised: None,
            donors: None,
            donations: Vec::new(),
        };
        proof {
            assert(store@ =~= LedgerModel::empty());
        }
        store
    }

    /// Whether `key` is present, as the host's `has` would report it.
    pub fn has(&self, key: &DataKey) -> (present: bool)
        ensures
            present == self@.key_present(*key),
    {
        match key {
            DataKey::Initialized => self.initialized,
            DataKey::Admin => self.admin.is_some(),
            DataKey::Goal => self.goal.is_some(),
            DataKey::TotalRaised => self.total_raised.is_some(),
            DataKey::Donors => self.donors.is_some(),
            DataKey::Donation(d) => find_donor(&self.donations, *d).is_some(),
        }
    }
}

/// The index of the record for `donor`, scanning from the front, or `None`
/// when no record exists.
fn find_donor(v: &Vec<(Identity, i128)>, donor: Identity) -> (r: Option<usize>)
    ensures
        r matches Some(i) ==> i < v.len() && v@[i as int].0 == donor && !has_donor(
            abs_donations(*v).take(i as int),
            donor,
        ) && has_donor(abs_donations(*v), donor) && amount_of(abs_donations(*v), donor) == v@[
            i as int
        ].1 as int,
        r is None ==> !has_donor(abs_donations(*v), donor) && amount_of(abs_donations(*v), donor)
            == 0,
{
    let ghost s = abs_donations(*v);
    proof {
        assert(s.take(0) =~= Seq::<(Identity, int)>::empty());
        assert(!has_donor(s.take(0), donor));
        assert(s.skip(0) =~= s);
    }
    let mut i: usize = 0;
    while i < v.len()
        invariant
            i <= v.len(),
            s == abs_donations(*v),
            s.len() == v.len(),
            !has_donor(s.take(i as int), donor),
            amount_of(s, donor) == amount_of(s.skip(i as int), donor),
            has_donor(s, donor) == has_donor(s.skip(i as int), donor),
        decreases v.len() - i,
    {
        proof {
            assert(s.skip(i as int)[0] == s[i as int]);
        }
        if v[i].0 == donor {
            proof {
                assert(amount_of(s.skip(i as int), donor) == s.skip(i as int)[0].1);
                assert(has_donor(s.skip(i as int), donor));
            }
            return Some(i);
        }
        proof {
            assert(amount_of(s.skip(i as int), donor) == amount_of(
                s.skip(i as int).drop_first(),
                donor,
            ));
            assert(has_donor(s.skip(i as int), donor) == has_donor(
                s.skip(i as int).drop_first(),
                donor,
            ));
            assert(s.skip(i as int).drop_first() =~= s.skip(i as int + 1));
            assert(s.take(i as int + 1) =~= s.take(i as int).push(s[i as int]));
            lemma_has_donor_push(s.take(i as int), s[i as int], donor);
        }
        i += 1;
    }
    proof {
        assert(s.skip(i as int) =~= Seq::<(Identity, int)>::empty());
        assert(amount_of(s.skip(i as int), donor) == 0);
        assert(!has_donor(s.skip(i as int), donor));
    }
    None
}

/// The crowdfunding ledger state machine.
pub struct CrowdfundContract;

impl CrowdfundContract {
    /// Create the campaign singleton: record the admin, the goal, a zero
    /// total and a zero donor count, all in one atomic step.
    ///
    /// Fails with `AlreadyInitialized` on a second call and with
    /// `InvalidGoal` when the goal is not strictly positive; a failed call
    /// leaves the store exactly as it was.
    pub fn initialize(store: &mut Store, admin: Identity, goal: i128) -> (r: Result<
        (),
        LedgerError,
    >)
        requires
            old(store)@.wf(),
        ensures
            final(store)@.wf(),
            r == old(store)@.init_outcome(goal),
            final(store)@ == old(store)@.init_next(admin, goal),
    {
        if store.has(&DataKey::Initialized) {
            return Err(LedgerError::AlreadyInitialized);
        }
        if goal <= 0 {
            return Err(LedgerError::InvalidGoal);
        }
        store.initialized = true;
        store.admin = Some(admin);
        store.goal = Some(goal);
        store.total_raised = Some(0);
        store.donors = Some(0);
        proof {
            assert(store@ =~= old(store)@.init_next(admin, goal));
        }
        Ok(())
    }

    /// Commit one donation: raise the donor's cumulative record and the
    /// campaign total by `amount`, count a first-time donor (saturating at
    /// `u32::MAX`), and return the notification payload, all in one atomic
    /// step.
    ///
    /// `caller` is the identity the host has authenticated; it must be the
    /// donor.  Fails with `NotInitialized` before `initialize`, with
    /// `InvalidAmount` when `amount` is not strictly positive, with
    /// `Unauthorized` when the caller is not the donor, and with
    /// `DonorOverflow` or `CampaignOverflow` when a total would pass
    /// `i128::MAX`; a failed call leaves the store exactly as it was.
    pub fn donate(store: &mut Store, caller: Identity, donor: Identity, amount: i128) -> (r:
        Result<DonationEvent, LedgerError>)
        requires
            old(store)@.wf(),
        ensures
            final(store)@.wf(),
            r == old(store)@.donate_outcome(caller, donor, amount),
            final(store)@ == old(store)@.donate_next(caller, donor, amount),
    {
        if !store.has(&DataKey::Initialized) {
            return Err(LedgerError::NotInitialized);
        }
        if amount <= 0 {
            return Err(LedgerError::InvalidAmount);
        }
        if caller != donor {
            return Err(LedgerError::Unauthorized);
        }
        let idx = find_donor(&store.donations, donor);
        let donor_total: i128 = match idx {
            Some(i) => store.donations[i].1,
            None => 0,
        };
        let updated_donor_total: i128 = match donor_total.checked_add(amount) {
            Some(v) => v,
            None => {
                return Err(LedgerError::DonorOverflow);
            },
        };
        let total: i128 = match store.total_raised {
            Some(t) => t,
            None => 0,
        };
        let updated_total: i128 = match total.checked_add(amount) {
            Some(v) => v,
            None => {
                return Err(LedgerError::CampaignOverflow);
            },
        };
        if donor_total == 0 {
            let donors: u32 = match store.donors {
                Some(d) => d,
                None => 0,
            };
            let new_donors: u32 = match donors.checked_add(1) {
                Some(v) => v,
                None => u32::MAX,
            };
            store.donors = Some(new_donors);
        }
        match idx {
            Some(i) => store.donations.set(i, (donor, updated_donor_total)),
            None => store.donations.push((donor, updated_donor_total)),
        }
        store.total_raised = Some(updated_total);
        proof {
            let pre = old(store)@;
            let a = amount as int;
            match idx {
                Some(i) => {
                    lemma_upsert_at_index(pre.donations, i as int, donor, a);
                    assert(abs_donations(store.donations) =~= upsert(pre.donations, donor, a));
                },
                None => {
                    lemma_upsert_absent(pre.donations, donor, a);
                    assert(abs_donations(store.donations) =~= upsert(pre.donations, donor, a));
                },
            }
            assert(store@ =~= pre.donate_next(caller, donor, amount));
            lemma_donate_step(pre, caller, donor, amount);
        }
        Ok(DonationEvent { donor, amount, total_raised: updated_total })
    }

    /// Report the campaign summary.  Absent numeric keys default to zero;
    /// with no admin ever set the read fails as `NotInitialized`.
    pub fn get_campaign(store: &Store) -> (r: Result<Campaign, LedgerError>)
        ensures
            r == store@.campaign_view(),
    {
        match store.admin {
            None => Err(LedgerError::NotInitialized),
            Some(admin) => Ok(
                Campaign {
                    admin,
                    goal: match store.goal {
                        Some(g) => g,
                        None => 0,
                    },
                    total_raised: match store.total_raised {
                        Some(t) => t,
                        None => 0,
                    },
                    donors: match store.donors {
                        Some(d) => d,
                        None => 0,
                    },
                },
            ),
        }
    }

    /// The donor's cumulative contribution, or 0 if the donor never
    /// contributed.  Never fails.
    pub fn get_donation(store: &Store, donor: Identity) -> (r: i128)
        ensures
            r as int == amount_of(store@.donations, donor),
    {
        match find_donor(&store.donations, donor) {
            Some(i) => store.donations[i].1,
            None => 0,
        }
    }

    /// Whether the total raised has reached the goal, both defaulting to
    /// zero when absent.
    pub fn is_goal_reached(store: &Store) -> (r: bool)
        ensures
            r == store@.goal_reached(),
    {
        let goal: i128 = match store.goal {
            Some(g) => g,
            None => 0,
        };
        let total: i128 = match store.total_raised {
            Some(t) => t,
            None => 0,
        };
        total >= goal
    }
}

} // verus!
