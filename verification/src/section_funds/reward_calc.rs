//! How much a section pays out as rewards, and how the sum is shared among its nodes.

use crate::keys::PublicKey;
use crate::name::XorName;
use crate::name_map::{index_of, NameMap};
use crate::section_funds::reward_laws::{
    lemma_bucket_size_grows, lemma_distribute_names, lemma_distribute_total,
    lemma_no_shares_without_rewarded, lemma_round_total_positive, lemma_step_within_total,
};
use crate::token::Token;
use vstd::arithmetic::power2::{lemma2_to64, lemma_pow2_strictly_increases, lemma_pow2_unfold, pow2};
use vstd::prelude::*;

verus! {

/// The age of a node: how long it has served.
pub type NodeAge = u8;

/// Nodes younger than this earn no reward.
pub const MIN_REWARD_AGE: u8 = 6;

/// A node that may be rewarded: its age and the key of its wallet.
pub type RewardNode = (NodeAge, PublicKey);

/// A node's reward: its age, the key of its wallet and what it is paid.
pub type RewardShare = (NodeAge, PublicKey, Token);

/// What is newly minted on top of `payments`: as much again, as far as the section's
/// supply still allows.
pub open spec fn minted_amount(payments: nat, section_managed: nat, max_supply: nat) -> nat {
    if max_supply > section_managed {
        if payments <= max_supply - section_managed {
            payments
        } else {
            (max_supply - section_managed) as nat
        }
    } else {
        0
    }
}

/// The reward for `payments`: the payments and what is minted on top, or, where the
/// section manages more than its supply, the payments less the excess.
pub open spec fn reward_and_mint(payments: nat, section_managed: nat, max_supply: nat) -> nat {
    if max_supply > section_managed {
        payments + minted_amount(payments, section_managed, max_supply)
    } else if payments > section_managed - max_supply {
        (payments - (section_managed - max_supply)) as nat
    } else {
        0
    }
}

/// The number of decimal digits of `n`.
pub open spec fn decimal_len(n: nat) -> nat
    decreases n,
{
    if n < 10 {
        1
    } else {
        1 + decimal_len(n / 10)
    }
}

/// The size of the bucket of `age`: how many of the nodes have that age. Buckets below
/// the minimum age stay empty.
pub open spec fn bucket_size(nodes: Seq<(XorName, RewardNode)>, age: int) -> nat
    decreases nodes.len(),
{
    if nodes.len() == 0 {
        0
    } else {
        bucket_size(nodes.drop_last(), age) + if nodes.last().1.0 == age && age >= MIN_REWARD_AGE {
            1nat
        } else {
            0nat
        }
    }
}

/// How many of the nodes are old enough to be rewarded.
pub open spec fn rewarded_count(nodes: Seq<(XorName, RewardNode)>) -> nat
    decreases nodes.len(),
{
    if nodes.len() == 0 {
        0
    } else {
        rewarded_count(nodes.drop_last()) + if nodes.last().1.0 >= MIN_REWARD_AGE {
            1nat
        } else {
            0nat
        }
    }
}

/// The age of the oldest node that is rewarded; 0 where none is.
pub open spec fn oldest_rewarded(nodes: Seq<(XorName, RewardNode)>) -> nat
    decreases nodes.len(),
{
    if nodes.len() == 0 {
        0
    } else {
        let before = oldest_rewarded(nodes.drop_last());
        let age = nodes.last().1.0;
        if age >= MIN_REWARD_AGE && age > before {
            age as nat
        } else {
            before
        }
    }
}

/// The factor by which every payment of a round is scaled, so that large amounts take
/// few rounds: the amount, divided by the oldest age times the number of rewarded nodes,
/// and then by the oldest age times the number of digits of the amount. It is at least 1.
pub open spec fn bucket_multiplier(amount: nat, nodes: Seq<(XorName, RewardNode)>) -> nat {
    let share = amount / (oldest_rewarded(nodes) * rewarded_count(nodes));
    let divisor = oldest_rewarded(nodes) * decimal_len(amount);
    if share / divisor >= 1 {
        share / divisor
    } else {
        1
    }
}

/// What the bucket of `age` is paid in one whole round: every node of the bucket earns
/// `2^age` times the multiplier, so every step in age doubles the pay.
pub open spec fn bucket_step(amount: nat, nodes: Seq<(XorName, RewardNode)>, age: int) -> nat {
    if age < 0 {
        0
    } else {
        pow2(age as nat) * bucket_size(nodes, age) * bucket_multiplier(amount, nodes)
    }
}

/// What the buckets of the ages below `age` are paid together in one whole round.
pub open spec fn steps_below(amount: nat, nodes: Seq<(XorName, RewardNode)>, age: int) -> nat
    decreases age,
{
    if age <= 0 {
        0
    } else {
        steps_below(amount, nodes, age - 1) + bucket_step(amount, nodes, age - 1)
    }
}

/// What all buckets are paid together in one whole round.
pub open spec fn round_total(amount: nat, nodes: Seq<(XorName, RewardNode)>) -> nat {
    steps_below(amount, nodes, 256)
}

/// What a bucket gets of the last, partial round, which hands out `rest`: the buckets
/// are served by rising age, each in full while the rest lasts.
pub open spec fn last_round_part(rest: nat, below: nat, step: nat) -> nat {
    if rest <= below {
        0
    } else if rest - below >= step {
        step
    } else {
        (rest - below) as nat
    }
}

/// What the bucket of `age` is paid of `amount`: its step for every whole round that the
/// amount covers, and its part of the last round.
pub open spec fn bucket_reward(amount: nat, nodes: Seq<(XorName, RewardNode)>, age: int) -> nat {
    let total = round_total(amount, nodes);
    (amount / total) * bucket_step(amount, nodes, age) + last_round_part(
        amount % total,
        steps_below(amount, nodes, age),
        bucket_step(amount, nodes, age),
    )
}

/// How many nodes of the age of node `i` come before it in the order of names.
pub open spec fn earlier_in_bucket(nodes: Seq<(XorName, RewardNode)>, i: int) -> nat {
    bucket_size(nodes.take(i), nodes[i].1.0 as int)
}

/// What node `i` is paid of `amount`: an equal share of what its bucket is paid. What is
/// left over of the bucket's pay goes to the node of the bucket whose name comes first.
pub open spec fn node_share(amount: nat, nodes: Seq<(XorName, RewardNode)>, i: int) -> nat {
    let age = nodes[i].1.0 as int;
    let reward = bucket_reward(amount, nodes, age);
    let size = bucket_size(nodes, age);
    reward / size + if earlier_in_bucket(nodes, i) == 0 {
        reward % size
    } else {
        0
    }
}

/// The reward of node `i` as an entry: its name, with its age, its wallet and its share.
pub open spec fn share_entry(amount: nat, nodes: Seq<(XorName, RewardNode)>, i: int) -> (
    XorName,
    RewardShare,
) {
    (
        nodes[i].0,
        (nodes[i].1.0, nodes[i].1.1, Token::from_nano(node_share(amount, nodes, i) as u64)),
    )
}

/// The rewards of the first `k` nodes: one entry for each that is old enough, in the
/// order of names.
pub open spec fn shares_of(amount: nat, nodes: Seq<(XorName, RewardNode)>, k: int) -> Seq<
    (XorName, RewardShare),
>
    decreases k,
{
    if k <= 0 {
        Seq::empty()
    } else {
        let before = shares_of(amount, nodes, k - 1);
        if nodes[k - 1].1.0 >= MIN_REWARD_AGE {
            before.push(share_entry(amount, nodes, k - 1))
        } else {
            before
        }
    }
}

/// The sum of the rewards in `shares`.
pub open spec fn total_shares(shares: Seq<(XorName, RewardShare)>) -> nat
    decreases shares.len(),
{
    if shares.len() == 0 {
        0
    } else {
        total_shares(shares.drop_last()) + shares.last().1.2@
    }
}

/// The reward to pay out for the payments that a section took in. While the section
/// manages less than its share of the supply, as much as was paid is minted on top, up to
/// that share; once it manages more, the excess is burned from the payments. A sum beyond
/// the largest amount is cut to it.
pub fn get_reward_and_mint_amount(
    payments: Token,
    section_managed: Token,
    max_supply: Token,
) -> (reward: Token)
    ensures
        reward@ == if reward_and_mint(payments@, section_managed@, max_supply@) <= u64::MAX {
            reward_and_mint(payments@, section_managed@, max_supply@)
        } else {
            u64::MAX as nat
        },
        reward@ <= 2 * payments@,
        max_supply@ > section_managed@ ==> section_managed@ + minted_amount(
            payments@,
            section_managed@,
            max_supply@,
        ) <= max_supply@,
{
    let payments: u64 = payments.as_nano();
    let section_managed: u64 = section_managed.as_nano();
    let max_supply: u64 = max_supply.as_nano();
    let reward_nanos: u64 = if max_supply > section_managed {
        let room: u64 = max_supply - section_managed;
        let to_be_minted: u64 = if payments <= room {
            payments
        } else {
            room
        };
        payments.saturating_add(to_be_minted)
    } else {
        let excess_supply: u64 = section_managed - max_supply;
        if payments > excess_supply {
            payments - excess_supply
        } else {
            0
        }
    };
    Token::from_nano(reward_nanos)
}

/// Payments of a round are counted exactly up to this bound, which no amount reaches.
const STEP_CAP: u128 = 0x1_0000_0000_0000_0000;

/// `n`, or the cap where `n` is beyond it.
spec fn capped(n: int) -> int {
    if n <= STEP_CAP {
        n
    } else {
        STEP_CAP as int
    }
}

/// The buckets of a set of nodes: the size of the bucket of every age, the number of
/// nodes in all of them, and the age of the oldest.
struct RewardBuckets {
    sizes: Vec<u64>,
    node_count: u64,
    max_age: NodeAge,
}

impl RewardBuckets {
    /// Whether these are the buckets of `nodes`.
    spec fn are_of(&self, nodes: Seq<(XorName, RewardNode)>) -> bool {
        &&& self.sizes@.len() == 256
        &&& forall|age: int|
            0 <= age < 256 ==> #[trigger] self.sizes@[age] == bucket_size(nodes, age)
        &&& self.node_count == rewarded_count(nodes)
        &&& self.max_age == oldest_rewarded(nodes)
        &&& self.node_count > 0 ==> self.max_age >= MIN_REWARD_AGE
    }
}

/// Calculates reward for each public key proportional to the age of its node, out of the
/// total amount supplied. Every node that is old enough gets an entry, and the entries
/// add up to the amount.
pub fn distribute_rewards(amount: Token, nodes: NameMap<RewardNode>) -> (rewards: NameMap<
    RewardShare,
>)
    ensures
        rewards.wf(),
        rewards.entries() == shares_of(amount@, nodes.entries(), nodes.entries().len() as int),
        forall|name: XorName|
            rewards@.contains_key(name) <==> nodes@.contains_key(name) && nodes@[name].0
                >= MIN_REWARD_AGE,
        forall|name: XorName| #[trigger]
            rewards@.contains_key(name) ==> rewards@[name] == share_entry(
                amount@,
                nodes.entries(),
                index_of(nodes.entries(), name),
            ).1,
        rewarded_count(nodes.entries()) > 0 ==> total_shares(rewards.entries()) == amount@,
        rewarded_count(nodes.entries()) == 0 ==> rewards.entries().len() == 0,
{
    let reward_buckets = get_buckets(&nodes);
    let rewards = distribute(amount, &nodes, &reward_buckets);
    proof {
        lemma_distribute_total(amount, nodes.entries());
        lemma_distribute_names(amount@, nodes.entries(), rewards.entries());
    }
    rewards
}

/// Groups the nodes that are old enough into buckets by age.
fn get_buckets(nodes: &NameMap<RewardNode>) -> (buckets: RewardBuckets)
    ensures
        nodes.wf(),
        buckets.are_of(nodes.entries()),
{
    let mut sizes: Vec<u64> = Vec::new();
    let mut age: usize = 0;
    while age < 256
        invariant
            0 <= age <= 256,
            sizes@.len() == age,
            forall|a: int| 0 <= a < age ==> #[trigger] sizes@[a] == 0,
        decreases 256 - age,
    {
        sizes.push(0);
        age = age + 1;
    }
    let mut node_count: u64 = 0;
    let mut max_age: NodeAge = 0;
    let n: usize = nodes.len();
    let ghost s = nodes.entries();
    let mut i: usize = 0;
    assert(s.take(0) =~= Seq::empty());
    while i < n
        invariant
            0 <= i <= n,
            n == s.len(),
            s == nodes.entries(),
            sizes@.len() == 256,
            forall|a: int|
                0 <= a < 256 ==> #[trigger] sizes@[a] == bucket_size(s.take(i as int), a),
            forall|a: int| 0 <= a < 256 ==> #[trigger] sizes@[a] <= i,
            node_count == rewarded_count(s.take(i as int)),
            node_count <= i,
            max_age == oldest_rewarded(s.take(i as int)),
            node_count > 0 ==> max_age >= MIN_REWARD_AGE,
        decreases n - i,
    {
        let node_age: NodeAge = nodes.value_at(i).0;
        proof {
            assert(s.take(i + 1).drop_last() =~= s.take(i as int));
            assert(s.take(i + 1).last() == s[i as int]);
        }
        if node_age >= MIN_REWARD_AGE {
            let size: u64 = sizes[node_age as usize];
            sizes.set(node_age as usize, size + 1);
            node_count = node_count + 1;
            if node_age > max_age {
                max_age = node_age;
            }
        }
        i = i + 1;
    }
    assert(s.take(n as int) =~= s);
    RewardBuckets { sizes, node_count, max_age }
}

/// The number of decimal digits of `n`.
fn decimal_digits(n: u64) -> (digits: u64)
    ensures
        digits == decimal_len(n as nat),
        digits >= 1,
{
    let mut digits: u64 = 1;
    let mut rest: u64 = n;
    while rest >= 10
        invariant
            digits >= 1,
            digits + rest <= n + 1,
            decimal_len(n as nat) == (digits - 1) + decimal_len(rest as nat),
        decreases rest,
    {
        rest = rest / 10;
        digits = digits + 1;
    }
    digits
}

/// The multiplier for paying `amount` to the nodes of `buckets`.
fn multiplier(
    amount: u64,
    buckets: &RewardBuckets,
    Ghost(nodes): Ghost<Seq<(XorName, RewardNode)>>,
) -> (m: u64)
    requires
        buckets.are_of(nodes),
        buckets.node_count > 0,
    ensures
        m == bucket_multiplier(amount as nat, nodes),
        m >= 1,
{
    let max_age: u128 = buckets.max_age as u128;
    let count: u128 = buckets.node_count as u128;
    let digits: u128 = decimal_digits(amount) as u128;
    assert(max_age * count < 0x1_0000_0000_0000_0000_0000) by (nonlinear_arith)
        requires
            0 < max_age <= 255,
            0 < count < 0x1_0000_0000_0000_0000,
    ;
    assert(max_age * count > 0) by (nonlinear_arith)
        requires
            0 < max_age,
            0 < count,
    ;
    assert(max_age * digits < 0x1_0000_0000_0000_0000_0000) by (nonlinear_arith)
        requires
            0 < max_age <= 255,
            0 < digits < 0x1_0000_0000_0000_0000,
    ;
    assert(max_age * digits > 0) by (nonlinear_arith)
        requires
            0 < max_age,
            0 < digits,
    ;
    let share: u128 = (amount as u128) / (max_age * count);
    let scaled: u128 = share / (max_age * digits);
    proof {
        let d1 = (max_age * count) as int;
        let d2 = (max_age * digits) as int;
        assert(share <= amount) by (nonlinear_arith)
            requires
                share == (amount as int) / d1,
                d1 >= 1,
                amount >= 0,
        ;
        assert(scaled <= share) by (nonlinear_arith)
            requires
                scaled == (share as int) / d2,
                d2 >= 1,
                share >= 0,
        ;
    }
    if scaled >= 1 {
        scaled as u64
    } else {
        1
    }
}

/// What a bucket is paid in one whole round, up to the cap.
fn capped_step(age: u8, size: u64, m: u64) -> (step: u128)
    requires
        m >= 1,
    ensures
        step == capped(pow2(age as nat) * size * m),
{
    if size == 0 {
        assert(pow2(age as nat) * 0 * m == 0) by (nonlinear_arith);
        return 0;
    }
    if age >= 64 {
        proof {
            lemma2_to64();
            if age > 64 {
                lemma_pow2_strictly_increases(64, age as nat);
            }
            let p = pow2(age as nat) as int;
            assert(p * size * m >= 0x1_0000_0000_0000_0000) by (nonlinear_arith)
                requires
                    p >= 0x1_0000_0000_0000_0000,
                    size >= 1,
                    m >= 1,
            ;
        }
        return STEP_CAP;
    }
    let mut power: u128 = 1;
    let mut k: u8 = 0;
    proof {
        lemma2_to64();
    }
    while k < age
        invariant
            0 <= k <= age < 64,
            power == pow2(k as nat),
            power < 0x1_0000_0000_0000_0000,
        decreases age - k,
    {
        proof {
            lemma_pow2_unfold((k + 1) as nat);
            if k + 1 < 64 {
                lemma_pow2_strictly_increases((k + 1) as nat, 64);
            }
            lemma2_to64();
        }
        power = power * 2;
        k = k + 1;
    }
    assert(power * size < 0x1_0000_0000_0000_0000_0000_0000_0000_0000) by (nonlinear_arith)
        requires
            0 <= power < 0x1_0000_0000_0000_0000,
            0 <= size < 0x1_0000_0000_0000_0000,
    ;
    let sized: u128 = power * (size as u128);
    if sized >= STEP_CAP {
        assert(sized * m >= 0x1_0000_0000_0000_0000) by (nonlinear_arith)
            requires
                sized >= 0x1_0000_0000_0000_0000,
                m >= 1,
        ;
        return STEP_CAP;
    }
    assert(sized * m < 0x1_0000_0000_0000_0000_0000_0000_0000_0000) by (nonlinear_arith)
        requires
            0 <= sized < 0x1_0000_0000_0000_0000,
            0 <= m < 0x1_0000_0000_0000_0000,
    ;
    let step: u128 = sized * (m as u128);
    if step >= STEP_CAP {
        STEP_CAP
    } else {
        step
    }
}

/// Shares `amount` among the nodes: finds what every bucket is paid, then pays every node
/// of a bucket an equal share, and what is left over to the first of the bucket.
fn distribute(
    amount: Token,
    nodes: &NameMap<RewardNode>,
    reward_buckets: &RewardBuckets,
) -> (rewards: NameMap<RewardShare>)
    requires
        reward_buckets.are_of(nodes.entries()),
    ensures
        rewards.wf(),
        rewards.entries() == shares_of(amount@, nodes.entries(), nodes.entries().len() as int),
{
    let ghost s = nodes.entries();
    let ghost total_amount = amount@;
    let n: usize = nodes.len();
    let mut rewards: NameMap<RewardShare> = NameMap::new();
    if reward_buckets.node_count == 0 {
        proof {
            lemma_no_shares_without_rewarded(total_amount, s, s.len() as int);
        }
        return rewards;
    }
    let amount: u64 = amount.as_nano();
    let bucket_rewards: Vec<u64> = bucket_payments(amount, reward_buckets, Ghost(s));

    let mut seen: Vec<bool> = Vec::new();
    let mut age: usize = 0;
    while age < 256
        invariant
            0 <= age <= 256,
            seen@.len() == age,
            forall|a: int| 0 <= a < age ==> !(#[trigger] seen@[a]),
        decreases 256 - age,
    {
        seen.push(false);
        age = age + 1;
    }
    let mut i: usize = 0;
    assert(s.take(0) =~= Seq::empty());
    while i < n
        invariant
            0 <= i <= n,
            n == s.len(),
            s == nodes.entries(),
            nodes.wf(),
            rewards.wf(),
            total_amount == amount,
            reward_buckets.are_of(s),
            bucket_rewards@.len() == 256,
            forall|a: int|
                0 <= a < 256 ==> #[trigger] bucket_rewards@[a] == bucket_reward(total_amount, s, a),
            seen@.len() == 256,
            forall|a: int|
                0 <= a < 256 ==> #[trigger] seen@[a] == (bucket_size(s.take(i as int), a) > 0),
            rewards.entries() == shares_of(total_amount, s, i as int),
            forall|k: int, j: int|
                0 <= k < rewards.entries().len() && i <= j < s.len() ==> (
                #[trigger] rewards.entries()[k]).0.before((#[trigger] s[j]).0),
        decreases n - i,
    {
        let name: XorName = nodes.name_at(i);
        let node: &RewardNode = nodes.value_at(i);
        let node_age: NodeAge = node.0;
        let wallet: PublicKey = node.1;
        proof {
            assert(s.take(i + 1).drop_last() =~= s.take(i as int));
            assert(s.take(i + 1).last() == s[i as int]);
        }
        if node_age >= MIN_REWARD_AGE {
            let size: u64 = reward_buckets.sizes[node_age as usize];
            let reward: u64 = bucket_rewards[node_age as usize];
            proof {
                lemma_bucket_size_grows(s, i + 1, s.len() as int, node_age as int);
                assert(s.take(s.len() as int) =~= s);
                assert(size >= 1);
            }
            let even: u64 = reward / size;
            let left_over: u64 = reward % size;
            proof {
                assert(even + left_over <= reward) by (nonlinear_arith)
                    requires
                        size >= 1,
                        even == reward / size,
                        left_over == reward % size,
                        reward >= 0,
                ;
            }
            let share: u64 = if seen[node_age as usize] {
                even
            } else {
                even + left_over
            };
            assert(share == node_share(total_amount, s, i as int));
            seen.set(node_age as usize, true);
            proof {
                let before = rewards.entries();
                assert forall|k: int| 0 <= k < before.len() implies (#[trigger] before[k]).0.before(
                    name,
                ) by {
                    assert(before[k].0.before(s[i as int].0));
                }
            }
            rewards.push_last(name, (node_age, wallet, Token::from_nano(share)));
            proof {
                let after = rewards.entries();
                assert forall|k: int, j: int|
                    0 <= k < after.len() && i + 1 <= j < s.len() implies
                    (#[trigger] after[k]).0.before((#[trigger] s[j]).0) by {
                    if k == after.len() - 1 {
                        assert(s[i as int].0.before(s[j].0));
                    }
                }
            }
        }
        i = i + 1;
    }
    rewards
}

/// What the bucket of every age is paid of `amount`.
fn bucket_payments(
    amount: u64,
    buckets: &RewardBuckets,
    Ghost(nodes): Ghost<Seq<(XorName, RewardNode)>>,
) -> (payments: Vec<u64>)
    requires
        buckets.are_of(nodes),
        buckets.node_count > 0,
    ensures
        payments@.len() == 256,
        forall|a: int|
            0 <= a < 256 ==> #[trigger] payments@[a] == bucket_reward(amount as nat, nodes, a),
{
    let ghost total_amount = amount as nat;
    let m: u64 = multiplier(amount, buckets, Ghost(nodes));
    let mut steps: Vec<u128> = Vec::new();
    let mut total: u128 = 0;
    let mut age: usize = 0;
    while age < 256
        invariant
            0 <= age <= 256,
            buckets.are_of(nodes),
            m == bucket_multiplier(total_amount, nodes),
            m >= 1,
            steps@.len() == age,
            forall|a: int|
                0 <= a < age ==>
                    #[trigger] steps@[a] == capped(bucket_step(total_amount, nodes, a) as int),
            total == capped(steps_below(total_amount, nodes, age as int) as int),
        decreases 256 - age,
    {
        let step: u128 = capped_step(age as u8, buckets.sizes[age], m);
        steps.push(step);
        let sum: u128 = total + step;
        total = if sum >= STEP_CAP {
            STEP_CAP
        } else {
            sum
        };
        age = age + 1;
    }
    proof {
        lemma_round_total_positive(total_amount, nodes);
    }
    let ghost whole = round_total(total_amount, nodes);
    let rounds: u64;
    let rest: u64;
    if total > amount as u128 {
        rounds = 0;
        rest = amount;
        proof {
            vstd::arithmetic::div_mod::lemma_basic_div(amount as int, whole as int);
            vstd::arithmetic::div_mod::lemma_small_mod(amount as nat, whole);
        }
    } else {
        rounds = amount / (total as u64);
        rest = amount % (total as u64);
    }
    assert(rounds == total_amount / whole);
    assert(rest == total_amount % whole);
    proof {
        vstd::arithmetic::div_mod::lemma_fundamental_div_mod(amount as int, whole as int);
        assert(total_amount == whole * rounds + rest);
    }

    let mut payments: Vec<u64> = Vec::new();
    let mut left: u64 = rest;
    let mut age: usize = 0;
    while age < 256
        invariant
            0 <= age <= 256,
            steps@.len() == 256,
            forall|a: int|
                0 <= a < 256 ==>
                    #[trigger] steps@[a] == capped(bucket_step(total_amount, nodes, a) as int),
            whole == round_total(total_amount, nodes),
            whole > 0,
            total_amount == amount,
            rounds == total_amount / whole,
            rest == total_amount % whole,
            total_amount == whole * rounds + rest,
            rounds > 0 ==> whole <= amount,
            left <= rest,
            left == rest - if rest <= steps_below(total_amount, nodes, age as int) {
                rest as int
            } else {
                steps_below(total_amount, nodes, age as int) as int
            },
            payments@.len() == age,
            forall|a: int|
                0 <= a < age ==> #[trigger] payments@[a] == bucket_reward(total_amount, nodes, a),
        decreases 256 - age,
    {
        let step: u128 = steps[age];
        let ghost exact = bucket_step(total_amount, nodes, age as int);
        let ghost below = steps_below(total_amount, nodes, age as int);
        let part: u64 = if step >= left as u128 {
            left
        } else {
            step as u64
        };
        assert(part == last_round_part(rest as nat, below, exact));
        let payment: u64 = if rounds == 0 {
            assert(0 * exact == 0) by (nonlinear_arith);
            part
        } else {
            proof {
                lemma_step_within_total(total_amount, nodes, age as int);
                assert(rounds * exact + part <= whole * rounds + rest) by (nonlinear_arith)
                    requires
                        exact <= whole,
                        part <= rest,
                        rounds >= 0,
                ;
                assert(rounds * exact <= rounds * exact + part);
            }
            rounds * (step as u64) + part
        };
        payments.push(payment);
        left = left - part;
        age = age + 1;
    }
    payments
}

} // verus!
