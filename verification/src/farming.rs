//! The farming system: the work of every account, and the reward that it has earned and
//! not been paid yet.

use crate::error::{Error, Result};
use crate::keys::PublicKey;
use crate::name::XorName;
use crate::token::Token;
use vstd::prelude::*;

verus! {

/// The work that a node has done, counted over its whole time in the network.
pub type Work = u64;

/// The account that the rewards of a node are paid to: the key of its wallet.
pub type AccountId = PublicKey;

/// What a section has counted for an account: its work, and the reward that it has earned
/// and not been paid yet.
#[derive(Clone, Copy, Debug, PartialEq, Eq, Structural)]
pub struct RewardCounter {
    /// The reward earned and not yet paid.
    pub reward: Token,
    /// The work done. It never decreases.
    pub work: Work,
}

/// The accounts of a farming system, in the order in which they were added.
pub type Accounts = Seq<(AccountId, RewardCounter)>;

/// Whether `accounts` holds the account `id`.
pub open spec fn has_account(accounts: Accounts, id: AccountId) -> bool {
    exists|i: int| 0 <= i < accounts.len() && (#[trigger] accounts[i]).0 == id
}

/// The place of the account `id` in `accounts`.
pub open spec fn account_index(accounts: Accounts, id: AccountId) -> int {
    choose|i: int| 0 <= i < accounts.len() && (#[trigger] accounts[i]).0 == id
}

/// The counter of the account `id`.
pub open spec fn counter_of(accounts: Accounts, id: AccountId) -> RewardCounter
    recommends
        has_account(accounts, id),
{
    accounts[account_index(accounts, id)].1
}

/// Whether no account occurs twice.
pub open spec fn distinct_accounts(accounts: Accounts) -> bool {
    forall|i: int, j: int| 0 <= i < j < accounts.len() ==> (#[trigger] accounts[i]).0 != (
    #[trigger] accounts[j]).0
}

/// The accounts after adding the account `id` with the work `work` and no reward. An
/// account that is there already stays as it is.
pub open spec fn after_add_account(accounts: Accounts, id: AccountId, work: Work) -> Accounts {
    if has_account(accounts, id) {
        accounts
    } else {
        accounts.push((id, RewardCounter { reward: Token::from_nano(0), work }))
    }
}

/// The accounts after the counter of the account `id` was claimed: the account is gone.
pub open spec fn after_claim(accounts: Accounts, id: AccountId) -> Accounts {
    if has_account(accounts, id) {
        accounts.remove(account_index(accounts, id))
    } else {
        accounts
    }
}

/// The reward for storing `num_bytes` bytes at the cost `base_cost` for a byte, scaled by
/// `factor`.
pub open spec fn total_reward(base_cost: Token, num_bytes: u64, factor: u64) -> nat {
    (num_bytes * base_cost@ * factor) as nat
}

/// What the account at place `i` of `count` gets of the reward `total`: an equal share,
/// and the first account what is left over.
pub open spec fn reward_share(total: nat, count: nat, i: int) -> nat {
    total / count + if i == 0 {
        total % count
    } else {
        0
    }
}

/// Whether the accounts can take the reward `total`: the counter of none of them would go
/// beyond what can be counted.
pub open spec fn can_credit(accounts: Accounts, total: nat) -> bool {
    forall|i: int|
        0 <= i < accounts.len() ==>
            (#[trigger] accounts[i]).1.work < u64::MAX && accounts[i].1.reward@
            + reward_share(total, accounts.len(), i) <= u64::MAX
}

/// The accounts after the reward `total` was shared among them: every account has done
/// one more piece of work, and has earned its share.
pub open spec fn credited(accounts: Accounts, total: nat) -> Accounts {
    Seq::new(
        accounts.len(),
        |i: int|
            (
                accounts[i].0,
                RewardCounter {
                    reward: Token::from_nano(
                        (accounts[i].1.reward@ + reward_share(total, accounts.len(), i)) as u64,
                    ),
                    work: (accounts[i].1.work + 1) as u64,
                },
            ),
    )
}

/// How rewarding the storing of the data `data_hash` ends: the data must not have been
/// rewarded before, and the reward and the counters must stay within what can be counted.
pub open spec fn reward_result(
    base_cost: Token,
    accounts: Accounts,
    rewarded: Set<XorName>,
    data_hash: XorName,
    num_bytes: u64,
    factor: u64,
) -> Result<Token> {
    if rewarded.contains(data_hash) {
        Err(Error::DataExists)
    } else if total_reward(base_cost, num_bytes, factor) > u64::MAX || !can_credit(
        accounts,
        total_reward(base_cost, num_bytes, factor),
    ) {
        Err(Error::ExcessiveValue)
    } else {
        Ok(Token::from_nano(total_reward(base_cost, num_bytes, factor) as u64))
    }
}

/// The accounts after rewarding the storing of the data `data_hash`.
pub open spec fn after_reward(
    base_cost: Token,
    accounts: Accounts,
    rewarded: Set<XorName>,
    data_hash: XorName,
    num_bytes: u64,
    factor: u64,
) -> Accounts {
    if reward_result(base_cost, accounts, rewarded, data_hash, num_bytes, factor) is Ok {
        credited(accounts, total_reward(base_cost, num_bytes, factor))
    } else {
        accounts
    }
}

/// The data that has been rewarded, after rewarding the storing of the data `data_hash`.
pub open spec fn rewarded_after(
    base_cost: Token,
    accounts: Accounts,
    rewarded: Set<XorName>,
    data_hash: XorName,
    num_bytes: u64,
    factor: u64,
) -> Set<XorName> {
    if reward_result(base_cost, accounts, rewarded, data_hash, num_bytes, factor) is Ok {
        rewarded.insert(data_hash)
    } else {
        rewarded
    }
}

/// Where no account occurs twice, the account at a place is the one that its id leads to.
pub proof fn lemma_account_at(accounts: Accounts, i: int)
    requires
        distinct_accounts(accounts),
        0 <= i < accounts.len(),
    ensures
        has_account(accounts, accounts[i].0),
        account_index(accounts, accounts[i].0) == i,
        counter_of(accounts, accounts[i].0) == accounts[i].1,
{
    assert(has_account(accounts, accounts[i].0));
}

/// Rewarding never lowers the work of an account, and keeps every account in its place:
/// the work of an account that was there before is one more where the reward is given,
/// and as it was where it is not.
pub proof fn lemma_reward_never_lowers_work(
    base_cost: Token,
    accounts: Accounts,
    rewarded: Set<XorName>,
    data_hash: XorName,
    num_bytes: u64,
    factor: u64,
    id: AccountId,
)
    requires
        distinct_accounts(accounts),
        has_account(accounts, id),
    ensures
        ({
            let after = after_reward(base_cost, accounts, rewarded, data_hash, num_bytes, factor);
            &&& distinct_accounts(after)
            &&& has_account(after, id)
            &&& counter_of(after, id).work >= counter_of(accounts, id).work
            &&& counter_of(after, id).reward@ >= counter_of(accounts, id).reward@
        }),
{
    let after = after_reward(base_cost, accounts, rewarded, data_hash, num_bytes, factor);
    let i = account_index(accounts, id);
    lemma_account_at(accounts, i);
    if reward_result(base_cost, accounts, rewarded, data_hash, num_bytes, factor) is Ok {
        let total = total_reward(base_cost, num_bytes, factor);
        assert(after[i].0 == id);
        assert forall|a: int, b: int| 0 <= a < b < after.len() implies (#[trigger] after[a]).0 != (
        #[trigger] after[b]).0 by {
            assert(accounts[a].0 != accounts[b].0);
        }
        lemma_account_at(after, i);
        assert(accounts[i].1.work < u64::MAX && accounts[i].1.reward@ + reward_share(
            total,
            accounts.len(),
            i,
        ) <= u64::MAX);
        crate::token::lemma_token_nanos(
            (accounts[i].1.reward@ + reward_share(total, accounts.len(), i)) as u64,
        );
    }
}

/// The same data is rewarded once: rewarding it again gives nothing and changes nothing.
pub proof fn lemma_reward_once(
    base_cost: Token,
    accounts: Accounts,
    rewarded: Set<XorName>,
    data_hash: XorName,
    num_bytes: u64,
    factor: u64,
)
    requires
        reward_result(base_cost, accounts, rewarded, data_hash, num_bytes, factor) is Ok,
    ensures
        ({
            let after = after_reward(base_cost, accounts, rewarded, data_hash, num_bytes, factor);
            let seen = rewarded_after(base_cost, accounts, rewarded, data_hash, num_bytes, factor);
            &&& reward_result(base_cost, after, seen, data_hash, num_bytes, factor) == Err::<
                Token,
                Error,
            >(Error::DataExists)
            &&& after_reward(base_cost, after, seen, data_hash, num_bytes, factor) == after
            &&& rewarded_after(base_cost, after, seen, data_hash, num_bytes, factor) == seen
        }),
{
}

/// An account is claimed once: after the claim it is gone, and a second claim finds no
/// such account.
pub proof fn lemma_claim_once(accounts: Accounts, id: AccountId)
    requires
        distinct_accounts(accounts),
        has_account(accounts, id),
    ensures
        !has_account(after_claim(accounts, id), id),
        distinct_accounts(after_claim(accounts, id)),
        after_claim(after_claim(accounts, id), id) == after_claim(accounts, id),
{
    let p = account_index(accounts, id);
    let after = after_claim(accounts, id);
    assert forall|i: int| 0 <= i < after.len() implies (#[trigger] after[i]).0 != id by {
        let i0 = if i < p { i } else { i + 1 };
        if i0 < p {
            assert(accounts[i0].0 != accounts[p].0);
        } else {
            assert(accounts[p].0 != accounts[i0].0);
        }
    }
    assert forall|i: int, j: int| 0 <= i < j < after.len() implies (#[trigger] after[i]).0 != (
    #[trigger] after[j]).0 by {
        let i0 = if i < p { i } else { i + 1 };
        let j0 = if j < p { j } else { j + 1 };
        assert(accounts[i0].0 != accounts[j0].0);
    }
}

/// A claim leaves the counters of the other accounts as they were.
pub proof fn lemma_claim_keeps_others(accounts: Accounts, claimed: AccountId, other: AccountId)
    requires
        distinct_accounts(accounts),
        has_account(accounts, claimed),
        has_account(accounts, other),
        has_account(after_claim(accounts, claimed), other),
    ensures
        counter_of(after_claim(accounts, claimed), other) == counter_of(accounts, other),
{
    lemma_claim_once(accounts, claimed);
    let after = after_claim(accounts, claimed);
    let p = account_index(accounts, claimed);
    let m = account_index(after, other);
    let n = if m < p { m } else { m + 1 };
    lemma_account_at(after, m);
    lemma_account_at(accounts, n);
}

/// An account that is added starts from the work it is given, with no reward.
pub proof fn lemma_added_account_starts_from_work(accounts: Accounts, id: AccountId, work: Work)
    requires
        distinct_accounts(accounts),
        !has_account(accounts, id),
    ensures
        distinct_accounts(after_add_account(accounts, id, work)),
        has_account(after_add_account(accounts, id, work), id),
        counter_of(after_add_account(accounts, id, work), id) == (RewardCounter {
            reward: Token::from_nano(0),
            work,
        }),
{
    let after = after_add_account(accounts, id, work);
    assert forall|i: int, j: int| 0 <= i < j < after.len() implies (#[trigger] after[i]).0 != (
    #[trigger] after[j]).0 by {
        if j == accounts.len() {
            assert(accounts[i].0 != id);
        } else {
            assert(accounts[i].0 != accounts[j].0);
        }
    }
    lemma_account_at(after, accounts.len() as int);
}

/// The farming system. It holds every account once.
#[derive(Debug)]
pub struct FarmingSystem {
    base_cost: Token,
    accounts: Vec<(AccountId, RewardCounter)>,
    rewarded: Vec<XorName>,
}

impl FarmingSystem {
    #[verifier::type_invariant]
    spec fn consistent(&self) -> bool {
        distinct_accounts(self.accounts@)
    }

    /// The cost of storing a byte.
    pub closed spec fn base_cost(&self) -> Token {
        self.base_cost
    }

    /// The accounts, in the order in which they were added.
    pub closed spec fn accounts(&self) -> Accounts {
        self.accounts@
    }

    /// The names of the data that has been rewarded.
    pub closed spec fn rewarded(&self) -> Set<XorName> {
        self.rewarded@.to_set()
    }

    /// What holds of every farming system: it holds no account twice.
    pub open spec fn wf(&self) -> bool {
        distinct_accounts(self.accounts())
    }

    /// A farming system without accounts, in which storing a byte costs `base_cost`.
    pub fn new(base_cost: Token) -> (farming: FarmingSystem)
        ensures
            farming.wf(),
            farming.base_cost() == base_cost,
            farming.accounts() == Seq::<(AccountId, RewardCounter)>::empty(),
            farming.rewarded() == Set::<XorName>::empty(),
    {
        let farming = FarmingSystem { base_cost, accounts: Vec::new(), rewarded: Vec::new() };
        assert(farming.rewarded@.to_set() =~= Set::<XorName>::empty());
        farming
    }

    /// The place of the account `id`, if there is one.
    fn find(&self, id: &AccountId) -> (at: Option<usize>)
        ensures
            self.wf(),
            match at {
                Some(i) => i < self.accounts().len() && self.accounts()[i as int].0 == *id
                    && has_account(self.accounts(), *id) && account_index(self.accounts(), *id)
                    == i,
                None => !has_account(self.accounts(), *id),
            },
    {
        proof {
            use_type_invariant(self);
        }
        let mut i: usize = 0;
        while i < self.accounts.len()
            invariant
                0 <= i <= self.accounts@.len(),
                distinct_accounts(self.accounts@),
                forall|j: int| 0 <= j < i ==> (#[trigger] self.accounts@[j]).0 != *id,
            decreases self.accounts@.len() - i,
        {
            if self.accounts[i].0.same(id) {
                proof {
                    lemma_account_at(self.accounts@, i as int);
                }
                return Some(i);
            }
            i = i + 1;
        }
        None
    }

    /// The counter of the account `id`, if there is such an account.
    pub fn get(&self, id: &AccountId) -> (counter: Option<RewardCounter>)
        ensures
            self.wf(),
            counter == if has_account(self.accounts(), *id) {
                Some(counter_of(self.accounts(), *id))
            } else {
                None
            },
    {
        match self.find(id) {
            Some(i) => Some(self.accounts[i].1),
            None => None,
        }
    }

    /// The number of accounts.
    pub fn len(&self) -> (n: usize)
        ensures
            self.wf(),
            n == self.accounts().len(),
    {
        proof {
            use_type_invariant(self);
        }
        self.accounts.len()
    }

    /// Adds the account `id`, with the work `work` done and no reward earned. It fails where
    /// the account is there already.
    pub fn add_account(&mut self, id: AccountId, work: Work) -> (r: Result<()>)
        ensures
            final(self).wf(),
            final(self).base_cost() == old(self).base_cost(),
            final(self).rewarded() == old(self).rewarded(),
            r == if has_account(old(self).accounts(), id) {
                Err::<(), Error>(Error::AccountExists)
            } else {
                Ok::<(), Error>(())
            },
            final(self).accounts() == after_add_account(old(self).accounts(), id, work),
    {
        match self.find(&id) {
            Some(_) => Err(Error::AccountExists),
            None => {
                let ghost s0 = self.accounts@;
                let mut accounts: Vec<(AccountId, RewardCounter)> = Vec::new();
                core::mem::swap(&mut self.accounts, &mut accounts);
                accounts.push((id, RewardCounter { reward: Token::from_nano(0), work }));
                proof {
                    let s1 = accounts@;
                    assert forall|i: int, j: int| 0 <= i < j < s1.len() implies
                        (#[trigger] s1[i]).0 != (#[trigger] s1[j]).0 by {
                        if j == s0.len() {
                            assert(s0[i].0 != id);
                        } else {
                            assert(s0[i].0 != s0[j].0);
                        }
                    }
                }
                core::mem::swap(&mut self.accounts, &mut accounts);
                Ok(())
            },
        }
    }

    /// Takes the account `id` out, and returns its counter. An account can be claimed
    /// once: after that it is gone.
    pub fn claim(&mut self, id: AccountId) -> (r: Result<RewardCounter>)
        ensures
            final(self).wf(),
            final(self).base_cost() == old(self).base_cost(),
            final(self).rewarded() == old(self).rewarded(),
            r == if has_account(old(self).accounts(), id) {
                Ok::<RewardCounter, Error>(counter_of(old(self).accounts(), id))
            } else {
                Err::<RewardCounter, Error>(Error::NoSuchAccount)
            },
            final(self).accounts() == after_claim(old(self).accounts(), id),
            !has_account(final(self).accounts(), id),
    {
        match self.find(&id) {
            None => Err(Error::NoSuchAccount),
            Some(at) => {
                let ghost s0 = self.accounts@;
                let ghost p = at as int;
                let mut accounts: Vec<(AccountId, RewardCounter)> = Vec::new();
                core::mem::swap(&mut self.accounts, &mut accounts);
                let gone = accounts.remove(at);
                proof {
                    let s1 = accounts@;
                    assert(s1 == s0.remove(p));
                    assert forall|i: int, j: int| 0 <= i < j < s1.len() implies
                        (#[trigger] s1[i]).0 != (#[trigger] s1[j]).0 by {
                        let i0 = if i < p { i } else { i + 1 };
                        let j0 = if j < p { j } else { j + 1 };
                        assert(s0[i0].0 != s0[j0].0);
                    }
                    assert forall|i: int| 0 <= i < s1.len() implies (#[trigger] s1[i]).0 != id by {
                        let i0 = if i < p { i } else { i + 1 };
                        if i0 < p {
                            assert(s0[i0].0 != s0[p].0);
                        } else {
                            assert(s0[p].0 != s0[i0].0);
                        }
                    }
                }
                core::mem::swap(&mut self.accounts, &mut accounts);
                Ok(gone.1)
            },
        }
    }

    /// Whether the storing of the data `data_hash` has been rewarded.
    fn was_rewarded(&self, data_hash: &XorName) -> (r: bool)
        ensures
            r == self.rewarded().contains(*data_hash),
    {
        let mut i: usize = 0;
        while i < self.rewarded.len()
            invariant
                0 <= i <= self.rewarded@.len(),
                forall|j: int| 0 <= j < i ==> self.rewarded@[j] != *data_hash,
            decreases self.rewarded@.len() - i,
        {
            if self.rewarded[i].same(data_hash) {
                return true;
            }
            i = i + 1;
        }
        false
    }

    /// Rewards the storing of `num_bytes` bytes of data, named `data_hash`: every account
    /// has done one more piece of work, and earns an equal share of the reward, which is
    /// the cost of the bytes scaled by `factor`. The same data is rewarded once only. On an
    /// error nothing changes.
    #[verifier::loop_isolation(false)]
    pub fn reward(&mut self, data_hash: XorName, num_bytes: u64, factor: u64) -> (r: Result<Token>)
        ensures
            final(self).wf(),
            final(self).base_cost() == old(self).base_cost(),
            r == reward_result(
                old(self).base_cost(),
                old(self).accounts(),
                old(self).rewarded(),
                data_hash,
                num_bytes,
                factor,
            ),
            final(self).accounts() == after_reward(
                old(self).base_cost(),
                old(self).accounts(),
                old(self).rewarded(),
                data_hash,
                num_bytes,
                factor,
            ),
            final(self).rewarded() == rewarded_after(
                old(self).base_cost(),
                old(self).accounts(),
                old(self).rewarded(),
                data_hash,
                num_bytes,
                factor,
            ),
    {
        proof {
            use_type_invariant(&*self);
        }
        if self.was_rewarded(&data_hash) {
            return Err(Error::DataExists);
        }
        let ghost wanted = total_reward(self.base_cost, num_bytes, factor);
        let byte_cost: u64 = self.base_cost.as_nano();
        assert(num_bytes * byte_cost <= 0xffff_ffff_ffff_ffff * 0xffff_ffff_ffff_ffff)
            by (nonlinear_arith)
            requires
                0 <= num_bytes <= 0xffff_ffff_ffff_ffff,
                0 <= byte_cost <= 0xffff_ffff_ffff_ffff,
        ;
        let cost: u128 = (num_bytes as u128) * (byte_cost as u128);
        if cost > u64::MAX as u128 && factor > 0 {
            assert(cost * factor > u64::MAX) by (nonlinear_arith)
                requires
                    cost > u64::MAX,
                    factor >= 1,
            ;
            return Err(Error::ExcessiveValue);
        }
        let scaled: u128 = if factor == 0 {
            assert(cost * 0 == 0) by (nonlinear_arith);
            0
        } else {
            assert(cost * factor <= 0xffff_ffff_ffff_ffff * 0xffff_ffff_ffff_ffff)
                by (nonlinear_arith)
                requires
                    cost <= 0xffff_ffff_ffff_ffff,
                    factor <= 0xffff_ffff_ffff_ffff,
            ;
            cost * (factor as u128)
        };
        assert(scaled == wanted);
        if scaled > u64::MAX as u128 {
            return Err(Error::ExcessiveValue);
        }
        let total: u64 = scaled as u64;
        let count: usize = self.accounts.len();
        let ghost s0 = self.accounts@;

        let mut i: usize = 0;
        while i < count
            invariant
                0 <= i <= count,
                count == s0.len(),
                s0 == self.accounts@,
                total == wanted,
                forall|j: int|
                    0 <= j < i ==> (#[trigger] s0[j]).1.work < u64::MAX && s0[j].1.reward@
                        + reward_share(wanted, s0.len(), j) <= u64::MAX,
            decreases count - i,
        {
            let counter: RewardCounter = self.accounts[i].1;
            let share: u64 = Self::share(total, count, i);
            let sum: Option<Token> = counter.reward.checked_add(Token::from_nano(share));
            if counter.work == u64::MAX || sum.is_none() {
                assert(!can_credit(s0, wanted)) by {
                    let share_due = reward_share(wanted, s0.len(), i as int);
                    assert(!(s0[i as int].1.work < u64::MAX && s0[i as int].1.reward@ + share_due
                        <= u64::MAX));
                }
                return Err(Error::ExcessiveValue);
            }
            i = i + 1;
        }
        assert(can_credit(s0, wanted));

        let mut accounts: Vec<(AccountId, RewardCounter)> = Vec::new();
        core::mem::swap(&mut self.accounts, &mut accounts);
        let mut i: usize = 0;
        while i < count
            invariant
                0 <= i <= count,
                count == s0.len(),
                accounts@.len() == count,
                total == wanted,
                can_credit(s0, wanted),
                forall|j: int| 0 <= j < i ==> #[trigger] accounts@[j] == credited(s0, wanted)[j],
                forall|j: int| i <= j < count ==> #[trigger] accounts@[j] == s0[j],
            decreases count - i,
        {
            let id: AccountId = accounts[i].0;
            let counter: RewardCounter = accounts[i].1;
            let share: u64 = Self::share(total, count, i);
            assert(s0[i as int].1.work < u64::MAX && s0[i as int].1.reward@ + reward_share(
                wanted,
                s0.len(),
                i as int,
            ) <= u64::MAX);
            let reward: Token = Token::from_nano(counter.reward.as_nano() + share);
            accounts.set(i, (id, RewardCounter { reward, work: counter.work + 1 }));
            i = i + 1;
        }
        proof {
            assert(accounts@ =~= credited(s0, wanted));
            let s1 = accounts@;
            assert forall|a: int, b: int| 0 <= a < b < s1.len() implies (#[trigger] s1[a]).0 != (
            #[trigger] s1[b]).0 by {
                assert(s0[a].0 != s0[b].0);
            }
        }
        core::mem::swap(&mut self.accounts, &mut accounts);
        let ghost r0 = self.rewarded@;
        let mut rewarded: Vec<XorName> = Vec::new();
        core::mem::swap(&mut self.rewarded, &mut rewarded);
        rewarded.push(data_hash);
        proof {
            let r1 = rewarded@;
            assert(r1.to_set() =~= r0.to_set().insert(data_hash)) by {
                assert forall|n: XorName| r1.to_set().contains(n) == r0.to_set().insert(
                    data_hash,
                ).contains(n) by {
                    if r0.contains(n) {
                        let k = choose|k: int| 0 <= k < r0.len() && r0[k] == n;
                        assert(r1[k] == n);
                    }
                    if n == data_hash {
                        assert(r1[r0.len() as int] == n);
                    }
                }
            }
        }
        core::mem::swap(&mut self.rewarded, &mut rewarded);
        Ok(Token::from_nano(total))
    }

    /// What the account at place `i` of `count` gets of the reward `total`.
    fn share(total: u64, count: usize, i: usize) -> (share: u64)
        requires
            i < count,
        ensures
            share == reward_share(total as nat, count as nat, i as int),
            share <= total,
    {
        let even: u64 = total / (count as u64);
        let left_over: u64 = total % (count as u64);
        assert(even + left_over <= total) by (nonlinear_arith)
            requires
                count >= 1,
                even == total / (count as u64),
                left_over == total % (count as u64),
        ;
        if i == 0 {
            even + left_over
        } else {
            even
        }
    }
}

} // verus!
