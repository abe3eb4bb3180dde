//! The ledger-wide laws, proved over the model.
//!
//! Each operation's contract in [`crate::contract`] pins its result and its
//! next state to the model's `init_outcome` / `init_next` and
//! `donate_outcome` / `donate_next`, so the laws proved here about those spec
//! functions hold of any run of the executable ledger.  A donation attempt
//! is a `(caller, donor, amount)` triple; a sequence of attempts is run in
//! order, each committing or failing as its outcome says.

use vstd::prelude::*;

use crate::model::{
    amount_of, donor_set, lemma_donate_step, lemma_donor_set_len, LedgerModel,
};
use crate::types::{DonationEvent, Identity, LedgerError};

verus! {

/// The ledger after running a sequence of donation attempts in order.
pub open spec fn run(s: LedgerModel, ops: Seq<(Identity, Identity, i128)>) -> LedgerModel
    decreases ops.len(),
{
    if ops.len() == 0 {
        s
    } else {
        run(s.donate_next(ops[0].0, ops[0].1, ops[0].2), ops.drop_first())
    }
}

/// The sum of the amounts of exactly those attempts that commit during the
/// run (those whose outcome, in the state where they execute, is `Ok`).
pub open spec fn committed_sum(s: LedgerModel, ops: Seq<(Identity, Identity, i128)>) -> int
    decreases ops.len(),
{
    if ops.len() == 0 {
        0
    } else {
        (if s.donate_outcome(ops[0].0, ops[0].1, ops[0].2) is Ok {
            ops[0].2 as int
        } else {
            0
        }) + committed_sum(s.donate_next(ops[0].0, ops[0].1, ops[0].2), ops.drop_first())
    }
}

/// The set of donors of exactly those attempts that commit during the run.
pub open spec fn committed_donors(s: LedgerModel, ops: Seq<(Identity, Identity, i128)>) -> Set<
    Identity,
>
    decreases ops.len(),
{
    if ops.len() == 0 {
        Set::empty()
    } else {
        let rest = committed_donors(
            s.donate_next(ops[0].0, ops[0].1, ops[0].2),
            ops.drop_first(),
        );
        if s.donate_outcome(ops[0].0, ops[0].1, ops[0].2) is Ok {
            rest.insert(ops[0].1)
        } else {
            rest
        }
    }
}

/// Init-once: after a successful initialization, a second `initialize`
/// attempt fails with `AlreadyInitialized`, whatever its arguments, and the
/// ledger is exactly as the first initialization left it.
pub proof fn lemma_initialize_once(
    s: LedgerModel,
    admin1: Identity,
    goal1: i128,
    admin2: Identity,
    goal2: i128,
)
    requires
        s.init_outcome(goal1) is Ok,
    ensures
        s.init_next(admin1, goal1).init_outcome(goal2) == Err::<(), LedgerError>(
            LedgerError::AlreadyInitialized,
        ),
        s.init_next(admin1, goal1).init_next(admin2, goal2) == s.init_next(admin1, goal1),
{
}

/// Goal positivity: `initialize` with a goal that is not strictly positive
/// fails with `InvalidGoal` and leaves the ledger uninitialized, exactly as
/// it was.
pub proof fn lemma_invalid_goal_rejected(s: LedgerModel, admin: Identity, goal: i128)
    requires
        !s.initialized,
        goal <= 0,
    ensures
        s.init_outcome(goal) == Err::<(), LedgerError>(LedgerError::InvalidGoal),
        s.init_next(admin, goal) == s,
{
}

/// Contribution requires initialization: a donation attempt on an
/// uninitialized ledger fails with `NotInitialized` and changes nothing.
pub proof fn lemma_donate_requires_init(
    s: LedgerModel,
    caller: Identity,
    donor: Identity,
    amount: i128,
)
    requires
        !s.initialized,
    ensures
        s.donate_outcome(caller, donor, amount) == Err::<DonationEvent, LedgerError>(
            LedgerError::NotInitialized,
        ),
        s.donate_next(caller, donor, amount) == s,
{
}

/// Positive amount required: a donation attempt with an amount that is not
/// strictly positive fails with `InvalidAmount` and changes nothing.
pub proof fn lemma_positive_amount_required(
    s: LedgerModel,
    caller: Identity,
    donor: Identity,
    amount: i128,
)
    requires
        s.initialized,
        amount <= 0,
    ensures
        s.donate_outcome(caller, donor, amount) == Err::<DonationEvent, LedgerError>(
            LedgerError::InvalidAmount,
        ),
        s.donate_next(caller, donor, amount) == s,
{
}

/// Overflow safety: an amount that would push the donor's cumulative total
/// past `i128::MAX` fails with `DonorOverflow`; one that fits the donor but
/// would push the campaign total past `i128::MAX` fails with
/// `CampaignOverflow`.  Either way the ledger is left exactly as it was.
pub proof fn lemma_overflow_rejected(s: LedgerModel, donor: Identity, amount: i128)
    requires
        s.initialized,
        amount > 0,
    ensures
        amount_of(s.donations, donor) + amount > i128::MAX ==> s.donate_outcome(
            donor,
            donor,
            amount,
        ) == Err::<DonationEvent, LedgerError>(LedgerError::DonorOverflow) && s.donate_next(
            donor,
            donor,
            amount,
        ) == s,
        amount_of(s.donations, donor) + amount <= i128::MAX && s.total_or_zero() + amount
            > i128::MAX ==> s.donate_outcome(donor, donor, amount) == Err::<
            DonationEvent,
            LedgerError,
        >(LedgerError::CampaignOverflow) && s.donate_next(donor, donor, amount) == s,
{
}

/// Additivity: over any sequence of donation attempts, the campaign total
/// rises by exactly the sum of the committed amounts — no committed amount
/// is lost and nothing else is ever added — and the ledger stays well
/// formed.
pub proof fn lemma_total_raised_additivity(s: LedgerModel, ops: Seq<(Identity, Identity, i128)>)
    requires
        s.wf(),
    ensures
        run(s, ops).wf(),
        run(s, ops).total_or_zero() == s.total_or_zero() + committed_sum(s, ops),
    decreases ops.len(),
{
    if ops.len() > 0 {
        lemma_donate_step(s, ops[0].0, ops[0].1, ops[0].2);
        lemma_total_raised_additivity(
            s.donate_next(ops[0].0, ops[0].1, ops[0].2),
            ops.drop_first(),
        );
    }
}

/// Donor-count correctness: running any sequence of donation attempts on an
/// initialized ledger leaves records for exactly the donors it already had
/// together with the donors of the committed attempts — however often each
/// donated — and the stored donor count is the number of those distinct
/// donors, capped at `u32::MAX`.
pub proof fn lemma_donor_count_correct(s: LedgerModel, ops: Seq<(Identity, Identity, i128)>)
    requires
        s.wf(),
        s.initialized,
    ensures
        run(s, ops).wf(),
        donor_set(run(s, ops).donations) == donor_set(s.donations).union(
            committed_donors(s, ops),
        ),
        run(s, ops).donors_or_zero() == vstd::math::min(
            donor_set(run(s, ops).donations).len() as int,
            u32::MAX as int,
        ),
    decreases ops.len(),
{
    if ops.len() == 0 {
        lemma_donor_set_len(s.donations);
        assert(donor_set(s.donations).union(committed_donors(s, ops)) =~= donor_set(s.donations));
    } else {
        let next = s.donate_next(ops[0].0, ops[0].1, ops[0].2);
        lemma_donate_step(s, ops[0].0, ops[0].1, ops[0].2);
        lemma_donor_count_correct(next, ops.drop_first());
        if s.donate_outcome(ops[0].0, ops[0].1, ops[0].2) is Ok {
            assert(donor_set(next.donations).union(committed_donors(next, ops.drop_first()))
                =~= donor_set(s.donations).union(committed_donors(s, ops)));
        } else {
            assert(donor_set(next.donations).union(committed_donors(next, ops.drop_first()))
                =~= donor_set(s.donations).union(committed_donors(s, ops)));
        }
    }
}

/// Goal-reached monotonicity: once the total has reached the goal, it still
/// has after any further sequence of donation attempts, since no attempt
/// lowers the total or changes the goal.
pub proof fn lemma_goal_reached_monotonic(s: LedgerModel, ops: Seq<(Identity, Identity, i128)>)
    requires
        s.wf(),
        s.goal_reached(),
    ensures
        run(s, ops).wf(),
        run(s, ops).goal_reached(),
    decreases ops.len(),
{
    if ops.len() > 0 {
        lemma_donate_step(s, ops[0].0, ops[0].1, ops[0].2);
        lemma_goal_reached_monotonic(s.donate_next(ops[0].0, ops[0].1, ops[0].2), ops.drop_first());
    }
}

} // verus!
