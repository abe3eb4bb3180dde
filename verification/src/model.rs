//! The mathematical model of the ledger.
//!
//! [`LedgerModel`] mirrors the persisted key space: one field per fixed key,
//! with `None` standing for an absent key, plus one `(donor, amount)` record
//! per donor.  The spec functions here say exactly what every operation
//! returns and what state it leaves behind; the executable code in
//! [`crate::contract`] is proved to match them.

use vstd::prelude::*;

use crate::types::{Campaign, DataKey, DonationEvent, Identity, LedgerError};

verus! {

/// The sum of all recorded donation amounts.
pub open spec fn sum_of(s: Seq<(Identity, int)>) -> int
    decreases s.len(),
{
    if s.len() == 0 {
        0
    } else {
        s[0].1 + sum_of(s.drop_first())
    }
}

/// The cumulative amount recorded for `donor`, or 0 if there is no record.
pub open spec fn amount_of(s: Seq<(Identity, int)>, donor: Identity) -> int
    decreases s.len(),
{
    if s.len() == 0 {
        0
    } else if s[0].0 == donor {
        s[0].1
    } else {
        amount_of(s.drop_first(), donor)
    }
}

/// Whether a record for `donor` exists.
pub open spec fn has_donor(s: Seq<(Identity, int)>, donor: Identity) -> bool
    decreases s.len(),
{
    if s.len() == 0 {
        false
    } else {
        s[0].0 == donor || has_donor(s.drop_first(), donor)
    }
}

/// The set of donors that have a record.
pub open spec fn donor_set(s: Seq<(Identity, int)>) -> Set<Identity>
    decreases s.len(),
{
    if s.len() == 0 {
        Set::empty()
    } else {
        donor_set(s.drop_first()).insert(s[0].0)
    }
}

/// No donor has more than one record.
pub open spec fn distinct_donors(s: Seq<(Identity, int)>) -> bool
    decreases s.len(),
{
    if s.len() == 0 {
        true
    } else {
        !has_donor(s.drop_first(), s[0].0) && distinct_donors(s.drop_first())
    }
}

/// Every recorded amount is strictly positive.
pub open spec fn all_positive(s: Seq<(Identity, int)>) -> bool
    decreases s.len(),
{
    if s.len() == 0 {
        true
    } else {
        s[0].1 > 0 && all_positive(s.drop_first())
    }
}

/// Raise `donor`'s record by `amount`, creating the record if it is absent.
/// The first matching record is the one raised, so on distinct records this is
/// the usual map update.
pub open spec fn upsert(s: Seq<(Identity, int)>, donor: Identity, amount: int) -> Seq<
    (Identity, int),
>
    decreases s.len(),
{
    if s.len() == 0 {
        seq![(donor, amount)]
    } else if s[0].0 == donor {
        seq![(s[0].0, s[0].1 + amount)] + s.drop_first()
    } else {
        seq![s[0]] + upsert(s.drop_first(), donor, amount)
    }
}

/// The records held by an executable donation vector: the same pairs, with
/// the amounts as unbounded integers.
pub open spec fn abs_donations(v: Vec<(Identity, i128)>) -> Seq<(Identity, int)> {
    v@.map_values(|p: (Identity, i128)| (p.0, p.1 as int))
}

/// The model of the persisted ledger: one field per storage key (`None` means
/// the key is absent) and the per-donor records.
#[verifier::ext_equal]
pub struct LedgerModel {
    pub initialized: bool,
    pub admin: Option<Identity>,
    pub goal: Option<int>,
    pub total_raised: Option<int>,
    pub donors: Option<int>,
    pub donations: Seq<(Identity, int)>,
}

impl LedgerModel {
    /// The store as it is before `initialize`: every key absent.
    pub open spec fn empty() -> LedgerModel {
        LedgerModel {
            initialized: false,
            admin: None,
            goal: None,
            total_raised: None,
            donors: None,
            donations: Seq::empty(),
        }
    }

    /// The goal, defaulting to 0 when the key is absent.
    pub open spec fn goal_or_zero(self) -> int {
        match self.goal {
            Some(g) => g,
            None => 0,
        }
    }

    /// The campaign-wide total, defaulting to 0 when the key is absent.
    pub open spec fn total_or_zero(self) -> int {
        match self.total_raised {
            Some(t) => t,
            None => 0,
        }
    }

    /// The donor count, defaulting to 0 when the key is absent.
    pub open spec fn donors_or_zero(self) -> int {
        match self.donors {
            Some(d) => d,
            None => 0,
        }
    }

    /// Well-formedness: what holds of the store after every operation.
    ///
    /// An uninitialized store holds no keys at all.  An initialized store
    /// holds an admin, a strictly positive goal, a total that is exactly the
    /// sum of the per-donor records, and a donor count that is the number of
    /// records, capped at `u32::MAX`.  Records are unique per donor and every
    /// recorded amount is strictly positive.
    pub open spec fn wf(self) -> bool {
        &&& distinct_donors(self.donations)
        &&& all_positive(self.donations)
        &&& if self.initialized {
            &&& self.admin is Some
            &&& (self.goal matches Some(g) && 0 < g <= i128::MAX)
            &&& self.total_raised == Some(sum_of(self.donations))
            &&& sum_of(self.donations) <= i128::MAX
            &&& self.donors == Some(
                vstd::math::min(self.donations.len() as int, u32::MAX as int),
            )
        } else {
            &&& self.admin is None
            &&& self.goal is None
            &&& self.total_raised is None
            &&& self.donors is None
            &&& self.donations.len() == 0
        }
    }

    /// Whether `key` is present in the store.
    pub open spec fn key_present(self, key: DataKey) -> bool {
        match key {
            DataKey::Initialized => self.initialized,
            DataKey::Admin => self.admin is Some,
            DataKey::Goal => self.goal is Some,
            DataKey::TotalRaised => self.total_raised is Some,
            DataKey::Donors => self.donors is Some,
            DataKey::Donation(d) => has_donor(self.donations, d),
        }
    }

    /// What `initialize` returns: the campaign may be created exactly once,
    /// and only with a strictly positive goal.
    pub open spec fn init_outcome(self, goal: i128) -> Result<(), LedgerError> {
        if self.initialized {
            Err(LedgerError::AlreadyInitialized)
        } else if goal <= 0 {
            Err(LedgerError::InvalidGoal)
        } else {
            Ok(())
        }
    }

    /// The store after `initialize`: on success every key is written in one
    /// atomic step; on failure nothing changes.
    pub open spec fn init_next(self, admin: Identity, goal: i128) -> LedgerModel {
        if self.init_outcome(goal) is Ok {
            LedgerModel {
                initialized: true,
                admin: Some(admin),
                goal: Some(goal as int),
                total_raised: Some(0),
                donors: Some(0),
                donations: self.donations,
            }
        } else {
            self
        }
    }

    /// What `donate` returns.  The checks run in this order: the campaign
    /// must be initialized, the amount strictly positive, the caller must be
    /// the donor, and neither the donor's total nor the campaign total may
    /// pass `i128::MAX`.  On success the emitted notification carries the
    /// donor, the amount, and the new campaign-wide total.
    pub open spec fn donate_outcome(
        self,
        caller: Identity,
        donor: Identity,
        amount: i128,
    ) -> Result<DonationEvent, LedgerError> {
        if !self.initialized {
            Err(LedgerError::NotInitialized)
        } else if amount <= 0 {
            Err(LedgerError::InvalidAmount)
        } else if caller != donor {
            Err(LedgerError::Unauthorized)
        } else if amount_of(self.donations, donor) + amount > i128::MAX {
            Err(LedgerError::DonorOverflow)
        } else if self.total_or_zero() + amount > i128::MAX {
            Err(LedgerError::CampaignOverflow)
        } else {
            Ok(
                DonationEvent {
                    donor,
                    amount,
                    total_raised: (self.total_or_zero() + amount) as i128,
                },
            )
        }
    }

    /// The donor count after a successful donation: a first-time donor raises
    /// it by one, saturating at `u32::MAX`; a repeat donor leaves it alone.
    pub open spec fn next_donor_count(self, donor: Identity) -> int {
        if amount_of(self.donations, donor) == 0 {
            if self.donors_or_zero() + 1 <= u32::MAX {
                self.donors_or_zero() + 1
            } else {
                u32::MAX as int
            }
        } else {
            self.donors_or_zero()
        }
    }

    /// The store after `donate`: on success the donor's record and the total
    /// rise by the amount and a first-time donor is counted, all in one
    /// atomic step; on failure nothing changes.
    pub open spec fn donate_next(
        self,
        caller: Identity,
        donor: Identity,
        amount: i128,
    ) -> LedgerModel {
        if self.donate_outcome(caller, donor, amount) is Ok {
            LedgerModel {
                total_raised: Some(self.total_or_zero() + amount),
                donors: Some(self.next_donor_count(donor)),
                donations: upsert(self.donations, donor, amount as int),
                ..self
            }
        } else {
            self
        }
    }

    /// What `get_campaign` returns: the summary, with absent numeric keys
    /// defaulting to zero, or `NotInitialized` when no admin was ever set.
    pub open spec fn campaign_view(self) -> Result<Campaign, LedgerError> {
        match self.admin {
            None => Err(LedgerError::NotInitialized),
            Some(a) => Ok(
                Campaign {
                    admin: a,
                    goal: self.goal_or_zero() as i128,
                    total_raised: self.total_or_zero() as i128,
                    donors: self.donors_or_zero() as u32,
                },
            ),
        }
    }

    /// What `is_goal_reached` returns: both the total and the goal default to
    /// zero when absent, so an uninitialized campaign vacuously reports the
    /// goal as reached.
    pub open spec fn goal_reached(self) -> bool {
        self.total_or_zero() >= self.goal_or_zero()
    }
}

/// With every recorded amount positive, a donor's cumulative amount is
/// non-negative, and it is zero exactly when the donor has no record.
pub proof fn lemma_amount_of_bounds(s: Seq<(Identity, int)>, donor: Identity)
    requires
        all_positive(s),
    ensures
        amount_of(s, donor) >= 0,
        amount_of(s, donor) == 0 <==> !has_donor(s, donor),
    decreases s.len(),
{
    if s.len() > 0 && s[0].0 != donor {
        lemma_amount_of_bounds(s.drop_first(), donor);
    }
}

/// Raising one donor's record by `amount` raises the sum of all records by
/// exactly `amount`.
pub proof fn lemma_upsert_sum(s: Seq<(Identity, int)>, donor: Identity, amount: int)
    ensures
        sum_of(upsert(s, donor, amount)) == sum_of(s) + amount,
    decreases s.len(),
{
    let u = upsert(s, donor, amount);
    if s.len() == 0 {
        assert(u.len() == 1);
        assert(u[0] == (donor, amount));
        assert(u.drop_first() =~= Seq::<(Identity, int)>::empty());
        assert(sum_of(u.drop_first()) == 0);
        assert(sum_of(u) == u[0].1 + sum_of(u.drop_first()));
    } else if s[0].0 == donor {
        assert(u.drop_first() =~= s.drop_first());
        assert(u[0] == (s[0].0, s[0].1 + amount));
        assert(sum_of(u) == u[0].1 + sum_of(u.drop_first()));
        assert(sum_of(s) == s[0].1 + sum_of(s.drop_first()));
    } else {
        assert(u.drop_first() =~= upsert(s.drop_first(), donor, amount));
        assert(u[0] == s[0]);
        lemma_upsert_sum(s.drop_first(), donor, amount);
        assert(sum_of(u) == u[0].1 + sum_of(u.drop_first()));
        assert(sum_of(s) == s[0].1 + sum_of(s.drop_first()));
    }
}

/// Raising a donor's record raises that donor's cumulative amount by exactly
/// the given amount, and the donor has a record afterwards.
pub proof fn lemma_upsert_amount_self(s: Seq<(Identity, int)>, donor: Identity, amount: int)
    ensures
        amount_of(upsert(s, donor, amount), donor) == amount_of(s, donor) + amount,
        has_donor(upsert(s, donor, amount), donor),
    decreases s.len(),
{
    let u = upsert(s, donor, amount);
    if s.len() == 0 {
        assert(u.drop_first() =~= Seq::<(Identity, int)>::empty());
    } else if s[0].0 == donor {
        assert(u.drop_first() =~= s.drop_first());
    } else {
        assert(u.drop_first() =~= upsert(s.drop_first(), donor, amount));
        lemma_upsert_amount_self(s.drop_first(), donor, amount);
    }
}

/// Raising one donor's record leaves every other donor's record alone.
pub proof fn lemma_upsert_amount_other(
    s: Seq<(Identity, int)>,
    donor: Identity,
    amount: int,
    other: Identity,
)
    requires
        other != donor,
    ensures
        amount_of(upsert(s, donor, amount), other) == amount_of(s, other),
        has_donor(upsert(s, donor, amount), other) == has_donor(s, other),
    decreases s.len(),
{
    let u = upsert(s, donor, amount);
    if s.len() == 0 {
        assert(u[0] == (donor, amount));
        assert(u.drop_first() =~= Seq::<(Identity, int)>::empty());
        assert(amount_of(u.drop_first(), other) == 0);
        assert(!has_donor(u.drop_first(), other));
        assert(amount_of(u, other) == amount_of(u.drop_first(), other));
        assert(has_donor(u, other) == has_donor(u.drop_first(), other));
    } else if s[0].0 == donor {
        assert(u[0] == (s[0].0, s[0].1 + amount));
        assert(u.drop_first() =~= s.drop_first());
        assert(amount_of(u, other) == amount_of(u.drop_first(), other));
        assert(has_donor(u, other) == has_donor(u.drop_first(), other));
        assert(amount_of(s, other) == amount_of(s.drop_first(), other));
        assert(has_donor(s, other) == has_donor(s.drop_first(), other));
    } else {
        assert(u[0] == s[0]);
        assert(u.drop_first() =~= upsert(s.drop_first(), donor, amount));
        lemma_upsert_amount_other(s.drop_first(), donor, amount, other);
        if s[0].0 == other {
            assert(amount_of(u, other) == u[0].1);
            assert(amount_of(s, other) == s[0].1);
            assert(has_donor(u, other));
            assert(has_donor(s, other));
        } else {
            assert(amount_of(u, other) == amount_of(u.drop_first(), other));
            assert(has_donor(u, other) == has_donor(u.drop_first(), other));
            assert(amount_of(s, other) == amount_of(s.drop_first(), other));
            assert(has_donor(s, other) == has_donor(s.drop_first(), other));
        }
    }
}

/// Raising a donor's record adds one record for a first-time donor and none
/// for a donor that already has one.
pub proof fn lemma_upsert_len(s: Seq<(Identity, int)>, donor: Identity, amount: int)
    ensures
        upsert(s, donor, amount).len() == s.len() + (if has_donor(s, donor) {
            0int
        } else {
            1int
        }),
    decreases s.len(),
{
    if s.len() > 0 && s[0].0 != donor {
        lemma_upsert_len(s.drop_first(), donor, amount);
    }
}

/// Raising a donor's record keeps records unique per donor.
pub proof fn lemma_upsert_distinct(s: Seq<(Identity, int)>, donor: Identity, amount: int)
    requires
        distinct_donors(s),
    ensures
        distinct_donors(upsert(s, donor, amount)),
    decreases s.len(),
{
    let u = upsert(s, donor, amount);
    if s.len() == 0 {
        assert(u[0] == (donor, amount));
        assert(u.drop_first() =~= Seq::<(Identity, int)>::empty());
        assert(!has_donor(u.drop_first(), u[0].0));
        assert(distinct_donors(u.drop_first()));
        assert(distinct_donors(u));
    } else if s[0].0 == donor {
        assert(u[0] == (s[0].0, s[0].1 + amount));
        assert(u.drop_first() =~= s.drop_first());
        assert(!has_donor(s.drop_first(), s[0].0));
        assert(distinct_donors(s.drop_first()));
        assert(distinct_donors(u));
    } else {
        assert(u[0] == s[0]);
        assert(u.drop_first() =~= upsert(s.drop_first(), donor, amount));
        assert(!has_donor(s.drop_first(), s[0].0));
        assert(distinct_donors(s.drop_first()));
        lemma_upsert_distinct(s.drop_first(), donor, amount);
        lemma_upsert_amount_other(s.drop_first(), donor, amount, s[0].0);
        assert(!has_donor(u.drop_first(), u[0].0));
        assert(distinct_donors(u));
    }
}

/// Raising a donor's record keeps every recorded amount strictly positive, as
/// long as the donor's new cumulative amount stays positive.
pub proof fn lemma_upsert_positive(s: Seq<(Identity, int)>, donor: Identity, amount: int)
    requires
        all_positive(s),
        amount > 0,
        amount_of(s, donor) + amount > 0,
    ensures
        all_positive(upsert(s, donor, amount)),
    decreases s.len(),
{
    let u = upsert(s, donor, amount);
    if s.len() == 0 {
        assert(u[0] == (donor, amount));
        assert(u.drop_first() =~= Seq::<(Identity, int)>::empty());
        assert(all_positive(u.drop_first()));
        assert(all_positive(u));
    } else if s[0].0 == donor {
        assert(u[0] == (s[0].0, s[0].1 + amount));
        assert(u.drop_first() =~= s.drop_first());
        assert(amount_of(s, donor) == s[0].1);
        assert(all_positive(s.drop_first()));
        assert(all_positive(u));
    } else {
        assert(u[0] == s[0]);
        assert(u.drop_first() =~= upsert(s.drop_first(), donor, amount));
        assert(amount_of(s, donor) == amount_of(s.drop_first(), donor));
        assert(all_positive(s.drop_first()));
        lemma_upsert_positive(s.drop_first(), donor, amount);
        assert(all_positive(u));
    }
}

/// Raising a donor's record adds exactly that donor to the set of recorded
/// donors.
pub proof fn lemma_upsert_donor_set(s: Seq<(Identity, int)>, donor: Identity, amount: int)
    ensures
        donor_set(upsert(s, donor, amount)) == donor_set(s).insert(donor),
    decreases s.len(),
{
    let u = upsert(s, donor, amount);
    if s.len() == 0 {
        assert(u[0] == (donor, amount));
        assert(u.drop_first() =~= Seq::<(Identity, int)>::empty());
        assert(donor_set(u.drop_first()) =~= Set::<Identity>::empty());
        assert(donor_set(u) == donor_set(u.drop_first()).insert(u[0].0));
        assert(donor_set(u) =~= donor_set(s).insert(donor));
    } else if s[0].0 == donor {
        assert(u[0] == (s[0].0, s[0].1 + amount));
        assert(u.drop_first() =~= s.drop_first());
        assert(donor_set(u) == donor_set(u.drop_first()).insert(u[0].0));
        assert(donor_set(s) == donor_set(s.drop_first()).insert(s[0].0));
        assert(donor_set(u) =~= donor_set(s).insert(donor));
    } else {
        assert(u[0] == s[0]);
        assert(u.drop_first() =~= upsert(s.drop_first(), donor, amount));
        lemma_upsert_donor_set(s.drop_first(), donor, amount);
        assert(donor_set(u) == donor_set(u.drop_first()).insert(u[0].0));
        assert(donor_set(s) == donor_set(s.drop_first()).insert(s[0].0));
        assert(donor_set(u) =~= donor_set(s).insert(donor));
    }
}

/// A donor is in the set of recorded donors exactly when a record exists.
pub proof fn lemma_donor_set_has(s: Seq<(Identity, int)>, donor: Identity)
    ensures
        donor_set(s).contains(donor) == has_donor(s, donor),
    decreases s.len(),
{
    if s.len() > 0 {
        lemma_donor_set_has(s.drop_first(), donor);
    }
}

/// With records unique per donor, the set of recorded donors is finite and has
/// exactly one member per record.
pub proof fn lemma_donor_set_len(s: Seq<(Identity, int)>)
    requires
        distinct_donors(s),
    ensures
        donor_set(s).finite(),
        donor_set(s).len() == s.len(),
    decreases s.len(),
{
    if s.len() > 0 {
        lemma_donor_set_len(s.drop_first());
        lemma_donor_set_has(s.drop_first(), s[0].0);
    }
}

/// When the first record for `donor` sits at index `i`, raising the donor's
/// record is the same as updating that index in place.
pub proof fn lemma_upsert_at_index(s: Seq<(Identity, int)>, i: int, donor: Identity, amount: int)
    requires
        0 <= i < s.len(),
        s[i].0 == donor,
        !has_donor(s.take(i), donor),
    ensures
        upsert(s, donor, amount) == s.update(i, (donor, s[i].1 + amount)),
    decreases i,
{
    if i == 0 {
        assert(upsert(s, donor, amount) =~= s.update(0, (donor, s[0].1 + amount)));
    } else {
        assert(s.take(i)[0] == s[0]);
        assert(s.take(i).drop_first() =~= s.drop_first().take(i - 1));
        lemma_upsert_at_index(s.drop_first(), i - 1, donor, amount);
        assert(upsert(s, donor, amount) =~= s.update(i, (donor, s[i].1 + amount)));
    }
}

/// When no record for `donor` exists, raising the donor's record appends a
/// fresh record at the end.
pub proof fn lemma_upsert_absent(s: Seq<(Identity, int)>, donor: Identity, amount: int)
    requires
        !has_donor(s, donor),
    ensures
        upsert(s, donor, amount) == s.push((donor, amount)),
    decreases s.len(),
{
    if s.len() == 0 {
        assert(upsert(s, donor, amount) =~= s.push((donor, amount)));
    } else {
        lemma_upsert_absent(s.drop_first(), donor, amount);
        assert(upsert(s, donor, amount) =~= s.push((donor, amount)));
    }
}

/// One donation attempt, at the model level: it preserves well-formedness,
/// never touches the initialization flag, the admin or the goal, raises the
/// total by exactly the committed amount and by nothing on failure, never
/// lowers any donor's record, and on success adds exactly the donor to the
/// set of recorded donors.
pub proof fn lemma_donate_step(s: LedgerModel, caller: Identity, donor: Identity, amount: i128)
    requires
        s.wf(),
    ensures
        s.donate_next(caller, donor, amount).wf(),
        s.donate_next(caller, donor, amount).initialized == s.initialized,
        s.donate_next(caller, donor, amount).admin == s.admin,
        s.donate_next(caller, donor, amount).goal == s.goal,
        s.donate_next(caller, donor, amount).total_or_zero() == s.total_or_zero() + (
        if s.donate_outcome(caller, donor, amount) is Ok {
            amount as int
        } else {
            0
        }),
        forall|d: Identity|
            #[trigger] amount_of(s.donate_next(caller, donor, amount).donations, d) >= amount_of(
                s.donations,
                d,
            ),
        s.donate_outcome(caller, donor, amount) is Ok ==> donor_set(
            s.donate_next(caller, donor, amount).donations,
        ) == donor_set(s.donations).insert(donor),
        !(s.donate_outcome(caller, donor, amount) is Ok) ==> s.donate_next(caller, donor, amount)
            == s,
{
    let next = s.donate_next(caller, donor, amount);
    if s.donate_outcome(caller, donor, amount) is Ok {
        let a = amount as int;
        lemma_amount_of_bounds(s.donations, donor);
        lemma_upsert_sum(s.donations, donor, a);
        lemma_upsert_amount_self(s.donations, donor, a);
        lemma_upsert_len(s.donations, donor, a);
        lemma_upsert_distinct(s.donations, donor, a);
        lemma_upsert_positive(s.donations, donor, a);
        lemma_upsert_donor_set(s.donations, donor, a);
        assert forall|d: Identity|
            #[trigger] amount_of(next.donations, d) >= amount_of(s.donations, d) by {
            if d != donor {
                lemma_upsert_amount_other(s.donations, donor, a, d);
            }
        };
    } else {
        assert(next == s);
    }
}

/// Appending a record leaves the presence of every donor alone, except for
/// the appended donor, who is present afterwards.
pub proof fn lemma_has_donor_push(s: Seq<(Identity, int)>, record: (Identity, int), donor: Identity)
    ensures
        has_donor(s.push(record), donor) == (has_donor(s, donor) || record.0 == donor),
    decreases s.len(),
{
    let p = s.push(record);
    if s.len() == 0 {
        assert(p[0] == record);
        assert(p.drop_first() =~= Seq::<(Identity, int)>::empty());
        assert(!has_donor(p.drop_first(), donor));
        assert(has_donor(p, donor) == (p[0].0 == donor || has_donor(p.drop_first(), donor)));
    } else {
        assert(p[0] == s[0]);
        assert(p.drop_first() =~= s.drop_first().push(record));
        lemma_has_donor_push(s.drop_first(), record, donor);
        assert(has_donor(p, donor) == (p[0].0 == donor || has_donor(p.drop_first(), donor)));
        assert(has_donor(s, donor) == (s[0].0 == donor || has_donor(s.drop_first(), donor)));
    }
}

} // verus!
