//! Paying rewards out of the section's wallet: one transfer for an account at a time.

use crate::farming::AccountId;
use crate::node_ops::{NodeDuties, NodeDuty, RewardPayout};
use crate::token::Token;
use vstd::prelude::*;

verus! {

broadcast use {crate::token::lemma_token_nanos, crate::token::lemma_token_of_nanos};

/// The delay before the first new try of a transfer that failed, in milliseconds.
pub const RETRY_BASE_MS: u64 = 500;

/// The longest delay before a new try, in milliseconds.
pub const RETRY_CAP_MS: u64 = 30_000;

/// How often the transfer of a payout is tried at most.
pub const MAX_ATTEMPTS: u64 = 10;

/// The payouts to one account that are under way.
#[derive(Clone, Copy, Debug, PartialEq, Eq)]
pub struct PendingPayout {
    /// The account that is paid.
    pub account: AccountId,
    /// The amount of the transfer that is under way.
    pub in_flight: Token,
    /// The amount that waits for that transfer to end, to be paid in one transfer then.
    pub queued: Token,
    /// How often the transfer that is under way has been tried.
    pub attempts: u64,
}

/// Whether `pending` holds payouts to the account `id`.
pub open spec fn has_pending(pending: Seq<PendingPayout>, id: AccountId) -> bool {
    exists|i: int| 0 <= i < pending.len() && (#[trigger] pending[i]).account == id
}

/// The place of the payouts to the account `id` in `pending`.
pub open spec fn pending_index(pending: Seq<PendingPayout>, id: AccountId) -> int {
    choose|i: int| 0 <= i < pending.len() && (#[trigger] pending[i]).account == id
}

/// What holds of the payouts that are under way: there is one entry for an account at
/// most, so one transfer to it at a time, and every transfer has been tried once at
/// least and ten times at most.
pub open spec fn valid_pending(pending: Seq<PendingPayout>) -> bool {
    &&& forall|i: int, j: int|
        0 <= i < j < pending.len() ==> (#[trigger] pending[i]).account != (
        #[trigger] pending[j]).account
    &&& forall|i: int|
        0 <= i < pending.len() ==> 1 <= (#[trigger] pending[i]).attempts <= MAX_ATTEMPTS
}

/// The delay before the next try of a transfer that has failed `failures` times: it
/// starts at the base and doubles with every failure, up to the cap.
pub open spec fn retry_delay(failures: nat) -> nat
    decreases failures,
{
    if failures <= 1 {
        RETRY_BASE_MS as nat
    } else if 2 * retry_delay((failures - 1) as nat) >= RETRY_CAP_MS {
        RETRY_CAP_MS as nat
    } else {
        2 * retry_delay((failures - 1) as nat)
    }
}

/// The payouts under way after the payout of `amount` to the account `id` was asked for.
/// Where a transfer to the account is under way, the amount waits, added to what waits
/// already; else its transfer starts.
pub open spec fn after_initiate(pending: Seq<PendingPayout>, amount: Token, id: AccountId) -> Seq<
    PendingPayout,
> {
    if amount@ == 0 {
        pending
    } else if has_pending(pending, id) {
        let i = pending_index(pending, id);
        if pending[i].queued@ + amount@ <= u64::MAX {
            pending.update(
                i,
                PendingPayout {
                    queued: Token::from_nano((pending[i].queued@ + amount@) as u64),
                    ..pending[i]
                },
            )
        } else {
            pending
        }
    } else {
        pending.push(
            PendingPayout {
                account: id,
                in_flight: amount,
                queued: Token::from_nano(0),
                attempts: 1,
            },
        )
    }
}

/// What is to be done when the payout of `amount` to the account `id` is asked for: the
/// transfer is submitted where none to the account is under way; an amount that waits
/// asks for nothing; an amount that cannot be added to what waits is given up.
pub open spec fn initiate_duty(pending: Seq<PendingPayout>, amount: Token, id: AccountId) -> Option<
    NodeDuty,
> {
    if amount@ == 0 {
        None
    } else if has_pending(pending, id) {
        if pending[pending_index(pending, id)].queued@ + amount@ <= u64::MAX {
            None
        } else {
            Some(NodeDuty::PayoutFailed(RewardPayout { to: id, amount }))
        }
    } else {
        Some(NodeDuty::SubmitPayout(RewardPayout { to: id, amount }))
    }
}

/// The payouts under way after the transfer to the account `id` has succeeded: what
/// waited is under way now, in one transfer; where nothing waited, the account has no
/// payouts under way any more.
pub open spec fn after_success(pending: Seq<PendingPayout>, id: AccountId) -> Seq<PendingPayout> {
    if !has_pending(pending, id) {
        pending
    } else {
        let i = pending_index(pending, id);
        if pending[i].queued@ > 0 {
            pending.update(
                i,
                PendingPayout {
                    account: id,
                    in_flight: pending[i].queued,
                    queued: Token::from_nano(0),
                    attempts: 1,
                },
            )
        } else {
            pending.remove(i)
        }
    }
}

/// What is to be done when the transfer to the account `id` has succeeded: the transfer
/// of what waited is submitted.
pub open spec fn success_duty(pending: Seq<PendingPayout>, id: AccountId) -> Option<NodeDuty> {
    if has_pending(pending, id) && pending[pending_index(pending, id)].queued@ > 0 {
        Some(
            NodeDuty::SubmitPayout(
                RewardPayout { to: id, amount: pending[pending_index(pending, id)].queued },
            ),
        )
    } else {
        None
    }
}

/// The payouts under way after the transfer to the account `id` has failed: it is tried
/// again, up to ten times in all; then it is given up, and what waited is under way.
pub open spec fn after_failure(pending: Seq<PendingPayout>, id: AccountId) -> Seq<PendingPayout> {
    if !has_pending(pending, id) {
        pending
    } else {
        let i = pending_index(pending, id);
        if pending[i].attempts < MAX_ATTEMPTS {
            pending.update(
                i,
                PendingPayout { attempts: (pending[i].attempts + 1) as u64, ..pending[i] },
            )
        } else {
            after_success(pending, id)
        }
    }
}

/// What is to be done when the transfer to the account `id` has failed: a new try after
/// the delay, or, after the tenth try, the word that the payout failed, and the transfer
/// of what waited.
pub open spec fn failure_duties(pending: Seq<PendingPayout>, id: AccountId) -> Seq<NodeDuty> {
    if !has_pending(pending, id) {
        Seq::empty()
    } else {
        let entry = pending[pending_index(pending, id)];
        let payout = RewardPayout { to: id, amount: entry.in_flight };
        if entry.attempts < MAX_ATTEMPTS {
            seq![
                NodeDuty::RetryPayout {
                    payout,
                    delay_ms: retry_delay(entry.attempts as nat) as u64,
                },
            ]
        } else if entry.queued@ > 0 {
            seq![
                NodeDuty::PayoutFailed(payout),
                NodeDuty::SubmitPayout(RewardPayout { to: id, amount: entry.queued }),
            ]
        } else {
            seq![NodeDuty::PayoutFailed(payout)]
        }
    }
}

/// Where no account occurs twice, the entry at a place is the one that its account leads
/// to.
pub proof fn lemma_pending_at(pending: Seq<PendingPayout>, i: int)
    requires
        valid_pending(pending),
        0 <= i < pending.len(),
    ensures
        has_pending(pending, pending[i].account),
        pending_index(pending, pending[i].account) == i,
{
    assert(has_pending(pending, pending[i].account));
}

/// The delay before a new try is between the base and the cap.
pub proof fn lemma_retry_delay_bounds(failures: nat)
    ensures
        RETRY_BASE_MS <= retry_delay(failures) <= RETRY_CAP_MS,
    decreases failures,
{
    if failures > 1 {
        lemma_retry_delay_bounds((failures - 1) as nat);
    }
}

/// The delay before the next try of a transfer that has failed `failures` times.
fn delay_after(failures: u64) -> (delay: u64)
    requires
        1 <= failures <= MAX_ATTEMPTS,
    ensures
        delay == retry_delay(failures as nat),
        RETRY_BASE_MS <= delay <= RETRY_CAP_MS,
{
    let mut delay: u64 = RETRY_BASE_MS;
    let mut k: u64 = 1;
    while k < failures
        invariant
            1 <= k <= failures <= MAX_ATTEMPTS,
            delay == retry_delay(k as nat),
            RETRY_BASE_MS <= delay <= RETRY_CAP_MS,
        decreases failures - k,
    {
        delay = if 2 * delay >= RETRY_CAP_MS {
            RETRY_CAP_MS
        } else {
            2 * delay
        };
        k = k + 1;
    }
    delay
}

/// The section's funds, as far as rewards are paid out of them: the transfers that are
/// under way, and what waits for them to end.
#[derive(Debug)]
pub struct SectionFunds {
    pending: Vec<PendingPayout>,
}

impl SectionFunds {
    #[verifier::type_invariant]
    spec fn consistent(&self) -> bool {
        valid_pending(self.pending@)
    }

    /// The payouts that are under way.
    pub closed spec fn pending(&self) -> Seq<PendingPayout> {
        self.pending@
    }

    /// What holds of the funds always: the payouts under way are valid.
    pub open spec fn wf(&self) -> bool {
        valid_pending(self.pending())
    }

    /// Funds out of which no payout is under way.
    pub fn new() -> (funds: SectionFunds)
        ensures
            funds.wf(),
            funds.pending() == Seq::<PendingPayout>::empty(),
    {
        SectionFunds { pending: Vec::new() }
    }

    /// The place of the payouts to the account `id`, if there are any.
    fn find(&self, id: &AccountId) -> (at: Option<usize>)
        ensures
            self.wf(),
            match at {
                Some(i) => i < self.pending().len() && self.pending()[i as int].account == *id
                    && has_pending(self.pending(), *id) && pending_index(self.pending(), *id) == i,
                None => !has_pending(self.pending(), *id),
            },
    {
        proof {
            use_type_invariant(self);
        }
        let mut i: usize = 0;
        while i < self.pending.len()
            invariant
                0 <= i <= self.pending@.len(),
                valid_pending(self.pending@),
                forall|j: int| 0 <= j < i ==> (#[trigger] self.pending@[j]).account != *id,
            decreases self.pending@.len() - i,
        {
            if self.pending[i].account.same(id) {
                proof {
                    lemma_pending_at(self.pending@, i as int);
                }
                return Some(i);
            }
            i = i + 1;
        }
        None
    }

    /// Sets the entry at place `at`.
    fn set_entry(&mut self, at: usize, entry: PendingPayout)
        requires
            at < old(self).pending().len(),
            entry.account == old(self).pending()[at as int].account,
            1 <= entry.attempts <= MAX_ATTEMPTS,
        ensures
            final(self).wf(),
            final(self).pending() == old(self).pending().update(at as int, entry),
    {
        proof {
            use_type_invariant(&*self);
        }
        let ghost s0 = self.pending@;
        let mut pending: Vec<PendingPayout> = Vec::new();
        core::mem::swap(&mut self.pending, &mut pending);
        pending.set(at, entry);
        proof {
            let s1 = pending@;
            assert forall|i: int, j: int| 0 <= i < j < s1.len() implies
                (#[trigger] s1[i]).account != (#[trigger] s1[j]).account by {
                assert(s0[i].account != s0[j].account);
            }
            assert forall|i: int| 0 <= i < s1.len() implies 1 <= (#[trigger] s1[i]).attempts
                <= MAX_ATTEMPTS by {
                if i != at {
                    assert(1 <= s0[i].attempts <= MAX_ATTEMPTS);
                }
            }
        }
        core::mem::swap(&mut self.pending, &mut pending);
    }

    /// Takes the entry at place `at` out.
    fn remove_entry(&mut self, at: usize)
        requires
            at < old(self).pending().len(),
        ensures
            final(self).wf(),
            final(self).pending() == old(self).pending().remove(at as int),
    {
        proof {
            use_type_invariant(&*self);
        }
        let ghost s0 = self.pending@;
        let ghost p = at as int;
        let mut pending: Vec<PendingPayout> = Vec::new();
        core::mem::swap(&mut self.pending, &mut pending);
        let _ = pending.remove(at);
        proof {
            let s1 = pending@;
            assert forall|i: int, j: int| 0 <= i < j < s1.len() implies
                (#[trigger] s1[i]).account != (#[trigger] s1[j]).account by {
                let i0 = if i < p { i } else { i + 1 };
                let j0 = if j < p { j } else { j + 1 };
                assert(s0[i0].account != s0[j0].account);
            }
            assert forall|i: int| 0 <= i < s1.len() implies 1 <= (#[trigger] s1[i]).attempts
                <= MAX_ATTEMPTS by {
                let i0 = if i < p { i } else { i + 1 };
                assert(1 <= s0[i0].attempts <= MAX_ATTEMPTS);
            }
        }
        core::mem::swap(&mut self.pending, &mut pending);
    }

    /// Asks for the payout of `amount` to the account `account_id`. The duty is to submit
    /// the transfer, where none to the account is under way; else the amount waits, and is
    /// paid together with what waits already once that transfer has ended.
    pub fn initiate_reward_payout(&mut self, amount: Token, account_id: AccountId) -> (duty: Option<
        NodeDuty,
    >)
        ensures
            final(self).wf(),
            duty == initiate_duty(old(self).pending(), amount, account_id),
            final(self).pending() == after_initiate(old(self).pending(), amount, account_id),
    {
        proof {
            use_type_invariant(&*self);
        }
        if amount.as_nano() == 0 {
            return None;
        }
        match self.find(&account_id) {
            Some(at) => {
                let entry: PendingPayout = self.pending[at];
                match entry.queued.checked_add(amount) {
                    Some(queued) => {
                        self.set_entry(at, PendingPayout { queued, ..entry });
                        None
                    },
                    None => Some(NodeDuty::PayoutFailed(RewardPayout { to: account_id, amount })),
                }
            },
            None => {
                let ghost s0 = self.pending@;
                let mut pending: Vec<PendingPayout> = Vec::new();
                core::mem::swap(&mut self.pending, &mut pending);
                pending.push(
                    PendingPayout {
                        account: account_id,
                        in_flight: amount,
                        queued: Token::from_nano(0),
                        attempts: 1,
                    },
                );
                proof {
                    let s1 = pending@;
                    assert forall|i: int, j: int| 0 <= i < j < s1.len() implies
                        (#[trigger] s1[i]).account != (#[trigger] s1[j]).account by {
                        if j == s0.len() {
                            assert(s0[i].account != account_id);
                        } else {
                            assert(s0[i].account != s0[j].account);
                        }
                    }
                    assert forall|i: int| 0 <= i < s1.len() implies 1 <= (#[trigger] s1[i]).attempts
                        <= MAX_ATTEMPTS by {
                        if i < s0.len() {
                            assert(1 <= s0[i].attempts <= MAX_ATTEMPTS);
                        }
                    }
                }
                core::mem::swap(&mut self.pending, &mut pending);
                Some(NodeDuty::SubmitPayout(RewardPayout { to: account_id, amount }))
            },
        }
    }

    /// Takes note that the transfer to the account `account_id` has succeeded. The duty is
    /// to submit the transfer of what waited for it.
    pub fn transfer_succeeded(&mut self, account_id: AccountId) -> (duty: Option<NodeDuty>)
        ensures
            final(self).wf(),
            duty == success_duty(old(self).pending(), account_id),
            final(self).pending() == after_success(old(self).pending(), account_id),
    {
        match self.find(&account_id) {
            None => None,
            Some(at) => self.start_queued(at),
        }
    }

    /// Ends the transfer at place `at`, and starts the transfer of what waited for it.
    fn start_queued(&mut self, at: usize) -> (duty: Option<NodeDuty>)
        requires
            old(self).wf(),
            at < old(self).pending().len(),
        ensures
            final(self).wf(),
            duty == success_duty(old(self).pending(), old(self).pending()[at as int].account),
            final(self).pending() == after_success(
                old(self).pending(),
                old(self).pending()[at as int].account,
            ),
    {
        proof {
            lemma_pending_at(self.pending@, at as int);
        }
        let entry: PendingPayout = self.pending[at];
        if entry.queued.as_nano() > 0 {
            self.set_entry(
                at,
                PendingPayout {
                    account: entry.account,
                    in_flight: entry.queued,
                    queued: Token::from_nano(0),
                    attempts: 1,
                },
            );
            Some(NodeDuty::SubmitPayout(RewardPayout { to: entry.account, amount: entry.queued }))
        } else {
            self.remove_entry(at);
            None
        }
    }

    /// Takes note that the transfer to the account `account_id` has failed. The duty is to
    /// try it again after a delay that doubles with every failure, from half a second up to
    /// thirty seconds; after the tenth try the payout is given up as failed, and the transfer
    /// of what waited for it is submitted.
    pub fn transfer_failed(&mut self, account_id: AccountId) -> (duties: NodeDuties)
        ensures
            final(self).wf(),
            duties@ == failure_duties(old(self).pending(), account_id),
            final(self).pending() == after_failure(old(self).pending(), account_id),
    {
        proof {
            use_type_invariant(&*self);
        }
        let mut duties: NodeDuties = Vec::new();
        match self.find(&account_id) {
            None => {},
            Some(at) => {
                let entry: PendingPayout = self.pending[at];
                let payout = RewardPayout { to: account_id, amount: entry.in_flight };
                if entry.attempts < MAX_ATTEMPTS {
                    let delay_ms: u64 = delay_after(entry.attempts);
                    self.set_entry(at, PendingPayout { attempts: entry.attempts + 1, ..entry });
                    duties.push(NodeDuty::RetryPayout { payout, delay_ms });
                } else {
                    duties.push(NodeDuty::PayoutFailed(payout));
                    match self.start_queued(at) {
                        Some(duty) => {
                            duties.push(duty);
                        },
                        None => {},
                    }
                }
            },
        }
        assert(duties@ =~= failure_duties(old(self).pending(), account_id));
        duties
    }
}

} // verus!
