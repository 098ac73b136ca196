//! What holds of the sharing of rewards, whatever the amount and the nodes.

use crate::name::XorName;
use crate::name_map::{index_of, lemma_map_of_entry, map_of, sorted_by_name};
use crate::section_funds::reward_calc::{
    bucket_multiplier, bucket_reward, bucket_size, bucket_step, earlier_in_bucket,
    last_round_part, minted_amount, node_share, reward_and_mint, rewarded_count, round_total,
    share_entry, shares_of, steps_below, total_shares, RewardNode, RewardShare, MIN_REWARD_AGE,
};
use crate::token::{lemma_token_nanos, Token};
use vstd::arithmetic::power2::{lemma_pow2_unfold, pow2};
use vstd::prelude::*;

verus! {

/// Where no node is old enough, nobody is paid.
pub(crate) proof fn lemma_no_shares_without_rewarded(
    amount: nat,
    nodes: Seq<(XorName, RewardNode)>,
    k: int,
)
    requires
        rewarded_count(nodes) == 0,
        0 <= k <= nodes.len(),
    ensures
        shares_of(amount, nodes, k) == Seq::<(XorName, RewardShare)>::empty(),
    decreases k,
{
    if k > 0 {
        lemma_no_shares_without_rewarded(amount, nodes, k - 1);
        if nodes[k - 1].1.0 >= MIN_REWARD_AGE {
            lemma_rewarded_count_counts(nodes, k - 1);
        }
    }
}

/// A node that is old enough is counted among the rewarded.
proof fn lemma_rewarded_count_counts(nodes: Seq<(XorName, RewardNode)>, i: int)
    requires
        0 <= i < nodes.len(),
        nodes[i].1.0 >= MIN_REWARD_AGE,
    ensures
        rewarded_count(nodes) > 0,
    decreases nodes.len(),
{
    if i < nodes.len() - 1 {
        lemma_rewarded_count_counts(nodes.drop_last(), i);
    }
}

/// A bucket does not shrink as more nodes are taken in.
pub(crate) proof fn lemma_bucket_size_grows(
    nodes: Seq<(XorName, RewardNode)>,
    k: int,
    l: int,
    age: int,
)
    requires
        0 <= k <= l <= nodes.len(),
    ensures
        bucket_size(nodes.take(k), age) <= bucket_size(nodes.take(l), age),
    decreases l - k,
{
    if k < l {
        lemma_bucket_size_grows(nodes, k, l - 1, age);
        assert(nodes.take(l).drop_last() =~= nodes.take(l - 1));
    }
}

/// What the buckets below an age are paid in a round grows with the age.
proof fn lemma_steps_below_grows(amount: nat, nodes: Seq<(XorName, RewardNode)>, a: int, b: int)
    requires
        0 <= a <= b,
    ensures
        steps_below(amount, nodes, a) <= steps_below(amount, nodes, b),
    decreases b - a,
{
    if a < b {
        lemma_steps_below_grows(amount, nodes, a, b - 1);
    }
}

/// No bucket is paid more in a round than all buckets together.
pub(crate) proof fn lemma_step_within_total(
    amount: nat,
    nodes: Seq<(XorName, RewardNode)>,
    age: int,
)
    requires
        0 <= age < 256,
    ensures
        bucket_step(amount, nodes, age) <= round_total(amount, nodes),
        steps_below(amount, nodes, age) + bucket_step(amount, nodes, age) <= round_total(
            amount,
            nodes,
        ),
{
    lemma_steps_below_grows(amount, nodes, age + 1, 256);
}

/// Some bucket of the ages from `from` on is not empty where a node that is rewarded is
/// at least that old.
proof fn lemma_some_bucket_filled(nodes: Seq<(XorName, RewardNode)>) -> (age: int)
    requires
        rewarded_count(nodes) > 0,
    ensures
        MIN_REWARD_AGE <= age < 256,
        bucket_size(nodes, age) > 0,
    decreases nodes.len(),
{
    if nodes.last().1.0 >= MIN_REWARD_AGE {
        nodes.last().1.0 as int
    } else {
        lemma_some_bucket_filled(nodes.drop_last())
    }
}

/// Where a node is rewarded, a round pays something.
pub(crate) proof fn lemma_round_total_positive(amount: nat, nodes: Seq<(XorName, RewardNode)>)
    requires
        rewarded_count(nodes) > 0,
    ensures
        round_total(amount, nodes) > 0,
{
    let age = lemma_some_bucket_filled(nodes);
    lemma_step_within_total(amount, nodes, age);
    let p = pow2(age as nat);
    let n = bucket_size(nodes, age);
    let m = bucket_multiplier(amount, nodes);
    vstd::arithmetic::power2::lemma_pow2_pos(age as nat);
    assert(p * n * m > 0) by (nonlinear_arith)
        requires
            p > 0,
            n > 0,
            m > 0,
    ;
}

/// What the buckets of the ages below `age` are paid of `amount`, together.
pub open spec fn rewards_below(amount: nat, nodes: Seq<(XorName, RewardNode)>, age: int) -> nat
    decreases age,
{
    if age <= 0 {
        0
    } else {
        rewards_below(amount, nodes, age - 1) + bucket_reward(amount, nodes, age - 1)
    }
}

/// What the first `k` nodes are paid out of the bucket of `age`.
spec fn paid_to_bucket(amount: nat, nodes: Seq<(XorName, RewardNode)>, k: int, age: int) -> nat {
    let served = bucket_size(nodes.take(k), age);
    let reward = bucket_reward(amount, nodes, age);
    let size = bucket_size(nodes, age);
    if served == 0 {
        0
    } else {
        served * (reward / size) + reward % size
    }
}

/// What the first `k` nodes are paid out of the buckets of the ages below `age`.
spec fn paid_below(amount: nat, nodes: Seq<(XorName, RewardNode)>, k: int, age: int) -> nat
    decreases age,
{
    if age <= 0 {
        0
    } else {
        paid_below(amount, nodes, k, age - 1) + paid_to_bucket(amount, nodes, k, age - 1)
    }
}

/// The buckets below an age are paid their steps for every whole round, and of the last
/// round what it lasts for.
proof fn lemma_rewards_below(amount: nat, nodes: Seq<(XorName, RewardNode)>, age: int)
    requires
        0 <= age <= 256,
        round_total(amount, nodes) > 0,
    ensures
        rewards_below(amount, nodes, age) == (amount / round_total(amount, nodes)) * steps_below(
            amount,
            nodes,
            age,
        ) + if amount % round_total(amount, nodes) <= steps_below(amount, nodes, age) {
            amount % round_total(amount, nodes)
        } else {
            steps_below(amount, nodes, age)
        },
    decreases age,
{
    let rounds = amount / round_total(amount, nodes);
    if age <= 0 {
        assert(rounds * 0 == 0) by (nonlinear_arith);
    } else {
        lemma_rewards_below(amount, nodes, age - 1);
        let rest = amount % round_total(amount, nodes);
        let below = steps_below(amount, nodes, age - 1);
        let step = bucket_step(amount, nodes, age - 1);
        assert(rounds * (below + step) == rounds * below + rounds * step) by (nonlinear_arith);
        assert(steps_below(amount, nodes, age) == below + step);
        assert(bucket_reward(amount, nodes, age - 1) == rounds * step + last_round_part(
            rest,
            below,
            step,
        ));
    }
}

/// The buckets are paid the whole amount, no more and no less.
pub proof fn lemma_buckets_paid_in_full(amount: nat, nodes: Seq<(XorName, RewardNode)>)
    requires
        rewarded_count(nodes) > 0,
    ensures
        rewards_below(amount, nodes, 256) == amount,
{
    lemma_round_total_positive(amount, nodes);
    lemma_rewards_below(amount, nodes, 256);
    let whole = round_total(amount, nodes);
    vstd::arithmetic::div_mod::lemma_fundamental_div_mod(amount as int, whole as int);
    vstd::arithmetic::div_mod::lemma_mod_bound(amount as int, whole as int);
    assert((amount / whole) * whole == whole * (amount / whole)) by (nonlinear_arith);
}

/// What the buckets below an age are paid grows with the age.
proof fn lemma_rewards_below_grows(amount: nat, nodes: Seq<(XorName, RewardNode)>, a: int, b: int)
    requires
        0 <= a <= b,
    ensures
        rewards_below(amount, nodes, a) <= rewards_below(amount, nodes, b),
    decreases b - a,
{
    if a < b {
        lemma_rewards_below_grows(amount, nodes, a, b - 1);
    }
}

/// No bucket is paid more than the amount, and no node more than its bucket.
pub proof fn lemma_share_within_amount(amount: nat, nodes: Seq<(XorName, RewardNode)>, i: int)
    requires
        0 <= i < nodes.len(),
        nodes[i].1.0 >= MIN_REWARD_AGE,
    ensures
        node_share(amount, nodes, i) <= bucket_reward(amount, nodes, nodes[i].1.0 as int),
        bucket_reward(amount, nodes, nodes[i].1.0 as int) <= amount,
        bucket_size(nodes, nodes[i].1.0 as int) > 0,
{
    let age = nodes[i].1.0 as int;
    lemma_rewarded_count_counts(nodes, i);
    lemma_buckets_paid_in_full(amount, nodes);
    lemma_rewards_below_grows(amount, nodes, age + 1, 256);
    lemma_bucket_size_grows(nodes, i + 1, nodes.len() as int, age);
    assert(nodes.take(nodes.len() as int) =~= nodes);
    assert(nodes.take(i + 1).drop_last() =~= nodes.take(i));
    let reward = bucket_reward(amount, nodes, age);
    let size = bucket_size(nodes, age);
    assert(reward / size + reward % size <= reward) by (nonlinear_arith)
        requires
            size >= 1,
            reward >= 0,
    ;
    assert(reward / size >= 0) by (nonlinear_arith)
        requires
            size >= 1,
            reward >= 0,
    ;
}

/// Taking in one more node pays its share out of its bucket, and leaves the other
/// buckets as they were.
proof fn lemma_paid_below_step(amount: nat, nodes: Seq<(XorName, RewardNode)>, k: int, age: int)
    requires
        0 <= k < nodes.len(),
        0 <= age <= 256,
    ensures
        paid_below(amount, nodes, k + 1, age) == paid_below(amount, nodes, k, age) + if nodes[k].1.0
            >= MIN_REWARD_AGE && nodes[k].1.0 < age {
            node_share(amount, nodes, k)
        } else {
            0
        },
    decreases age,
{
    if age > 0 {
        lemma_paid_below_step(amount, nodes, k, age - 1);
        let a = age - 1;
        assert(nodes.take(k + 1).drop_last() =~= nodes.take(k));
        assert(nodes.take(k + 1).last() == nodes[k]);
        if nodes[k].1.0 == a && a >= MIN_REWARD_AGE {
            let served = bucket_size(nodes.take(k), a);
            let reward = bucket_reward(amount, nodes, a);
            let size = bucket_size(nodes, a);
            let even = reward / size;
            lemma_bucket_size_grows(nodes, k + 1, nodes.len() as int, a);
            assert(nodes.take(nodes.len() as int) =~= nodes);
            assert(even >= 0 && reward % size >= 0) by (nonlinear_arith)
                requires
                    even == reward / size,
                    size >= 1,
                    reward >= 0,
            ;
            assert((served + 1) * even == served * even + even) by (nonlinear_arith);
            assert(0 * even == 0) by (nonlinear_arith);
            assert(bucket_size(nodes.take(k + 1), a) == served + 1);
            assert(earlier_in_bucket(nodes, k) == served);
            assert(paid_to_bucket(amount, nodes, k + 1, a) == (served + 1) * even + reward % size);
            assert(nodes[k].1.0 as int == a);
            if served == 0 {
                assert(served * even == 0);
                assert(paid_to_bucket(amount, nodes, k, a) == 0);
                assert(node_share(amount, nodes, k) == even + reward % size);
            } else {
                assert(paid_to_bucket(amount, nodes, k, a) == served * even + reward % size);
                assert(earlier_in_bucket(nodes, k) != 0);
                assert(bucket_reward(amount, nodes, nodes[k].1.0 as int) == reward);
                assert(bucket_size(nodes, nodes[k].1.0 as int) == size);
                assert(node_share(amount, nodes, k) == even);
            }
            assert(paid_to_bucket(amount, nodes, k + 1, a) == paid_to_bucket(amount, nodes, k, a)
                + node_share(amount, nodes, k));
        } else {
            assert(bucket_size(nodes.take(k + 1), a) == bucket_size(nodes.take(k), a));
            assert(paid_to_bucket(amount, nodes, k + 1, a) == paid_to_bucket(amount, nodes, k, a));
        }
    }
}

/// Once all nodes are taken in, every bucket has been paid out in full.
proof fn lemma_paid_below_all(amount: nat, nodes: Seq<(XorName, RewardNode)>, age: int)
    requires
        0 <= age <= 256,
    ensures
        paid_below(amount, nodes, nodes.len() as int, age) == rewards_below(amount, nodes, age),
    decreases age,
{
    if age > 0 {
        lemma_paid_below_all(amount, nodes, age - 1);
        let a = age - 1;
        assert(nodes.take(nodes.len() as int) =~= nodes);
        let reward = bucket_reward(amount, nodes, a);
        let size = bucket_size(nodes, a);
        if size == 0 {
            assert(bucket_step(amount, nodes, a) == 0) by (nonlinear_arith)
                requires
                    bucket_step(amount, nodes, a) == pow2(a as nat) * 0 * bucket_multiplier(
                        amount,
                        nodes,
                    ),
            ;
            assert((amount / round_total(amount, nodes)) * 0 == 0) by (nonlinear_arith);
        } else {
            vstd::arithmetic::div_mod::lemma_fundamental_div_mod(reward as int, size as int);
            assert(size * (reward / size) == (reward / size) * size) by (nonlinear_arith);
        }
    }
}

/// The first `k` nodes are paid, together, what has been paid out of the buckets.
proof fn lemma_shares_are_paid(amount: nat, nodes: Seq<(XorName, RewardNode)>, k: int)
    requires
        0 <= k <= nodes.len(),
        amount <= u64::MAX,
    ensures
        total_shares(shares_of(amount, nodes, k)) == paid_below(amount, nodes, k, 256),
    decreases k,
{
    if k == 0 {
        assert(nodes.take(0) =~= Seq::empty());
        lemma_nothing_paid_at_start(amount, nodes, 256);
    } else {
        lemma_shares_are_paid(amount, nodes, k - 1);
        lemma_paid_below_step(amount, nodes, k - 1, 256);
        if nodes[k - 1].1.0 >= MIN_REWARD_AGE {
            lemma_share_within_amount(amount, nodes, k - 1);
            let before = shares_of(amount, nodes, k - 1);
            let all = shares_of(amount, nodes, k);
            assert(all.drop_last() =~= before);
            lemma_token_nanos(node_share(amount, nodes, k - 1) as u64);
            assert(all.last().1.2@ == node_share(amount, nodes, k - 1));
        }
    }
}

/// Before any node is taken in, nothing has been paid.
proof fn lemma_nothing_paid_at_start(amount: nat, nodes: Seq<(XorName, RewardNode)>, age: int)
    requires
        0 <= age <= 256,
    ensures
        paid_below(amount, nodes, 0, age) == 0,
    decreases age,
{
    if age > 0 {
        lemma_nothing_paid_at_start(amount, nodes, age - 1);
        assert(nodes.take(0) =~= Seq::empty());
    }
}

/// The shares add up to the amount: where a node is old enough to be rewarded, all of
/// the amount is paid out and nothing more; where none is, nobody is paid.
pub proof fn lemma_distribute_total(amount: Token, nodes: Seq<(XorName, RewardNode)>)
    ensures
        rewarded_count(nodes) > 0 ==> total_shares(
            shares_of(amount@, nodes, nodes.len() as int),
        ) == amount@,
        rewarded_count(nodes) == 0 ==> shares_of(amount@, nodes, nodes.len() as int) == Seq::<
            (XorName, RewardShare),
        >::empty(),
{
    if rewarded_count(nodes) > 0 {
        lemma_shares_are_paid(amount@, nodes, nodes.len() as int);
        lemma_paid_below_all(amount@, nodes, 256);
        lemma_buckets_paid_in_full(amount@, nodes);
    } else {
        lemma_no_shares_without_rewarded(amount@, nodes, nodes.len() as int);
    }
}

/// The entry of a node that is old enough stands among the rewards of the nodes up to it.
proof fn lemma_share_present(amount: nat, nodes: Seq<(XorName, RewardNode)>, k: int, i: int) -> (j:
    int)
    requires
        0 <= i < k <= nodes.len(),
        nodes[i].1.0 >= MIN_REWARD_AGE,
    ensures
        0 <= j < shares_of(amount, nodes, k).len(),
        shares_of(amount, nodes, k)[j] == share_entry(amount, nodes, i),
    decreases k,
{
    if i == k - 1 {
        shares_of(amount, nodes, k).len() - 1
    } else {
        lemma_share_present(amount, nodes, k - 1, i)
    }
}

/// Every reward is the entry of a node that is old enough.
proof fn lemma_share_origin(amount: nat, nodes: Seq<(XorName, RewardNode)>, k: int, j: int) -> (i:
    int)
    requires
        0 <= k <= nodes.len(),
        0 <= j < shares_of(amount, nodes, k).len(),
    ensures
        0 <= i < k,
        nodes[i].1.0 >= MIN_REWARD_AGE,
        shares_of(amount, nodes, k)[j] == share_entry(amount, nodes, i),
    decreases k,
{
    if nodes[k - 1].1.0 >= MIN_REWARD_AGE && j == shares_of(amount, nodes, k).len() - 1 {
        k - 1
    } else {
        lemma_share_origin(amount, nodes, k - 1, j)
    }
}

/// The rewards name exactly the nodes that are old enough, each with its own age, wallet
/// and share.
pub proof fn lemma_distribute_names(
    amount: nat,
    nodes: Seq<(XorName, RewardNode)>,
    rewards: Seq<(XorName, RewardShare)>,
)
    requires
        sorted_by_name(nodes),
        sorted_by_name(rewards),
        rewards == shares_of(amount, nodes, nodes.len() as int),
    ensures
        forall|name: XorName|
            map_of(rewards).contains_key(name) <==> map_of(nodes).contains_key(name) && map_of(
                nodes,
            )[name].0 >= MIN_REWARD_AGE,
        forall|name: XorName| #[trigger]
            map_of(rewards).contains_key(name) ==> map_of(rewards)[name] == share_entry(
                amount,
                nodes,
                index_of(nodes, name),
            ).1,
{
    let n = nodes.len() as int;
    assert forall|name: XorName| #[trigger]
        map_of(rewards).contains_key(name) implies map_of(nodes).contains_key(name) && map_of(
        nodes,
    )[name].0 >= MIN_REWARD_AGE && map_of(rewards)[name] == share_entry(
        amount,
        nodes,
        index_of(nodes, name),
    ).1 by {
        let j = index_of(rewards, name);
        let i = lemma_share_origin(amount, nodes, n, j);
        lemma_map_of_entry(rewards, j);
        lemma_map_of_entry(nodes, i);
    }
    assert forall|name: XorName|
        map_of(nodes).contains_key(name) && map_of(nodes)[name].0
            >= MIN_REWARD_AGE implies #[trigger] map_of(rewards).contains_key(name) by {
        let i = index_of(nodes, name);
        lemma_map_of_entry(nodes, i);
        let j = lemma_share_present(amount, nodes, n, i);
        lemma_map_of_entry(rewards, j);
    }
}

/// What a node is paid, round by round: for every whole round, `2^age` times the
/// multiplier; and of what its bucket gets of the last round an equal share, with what is
/// left over of that for the node of the bucket whose name comes first.
pub proof fn lemma_share_in_rounds(amount: nat, nodes: Seq<(XorName, RewardNode)>, i: int)
    requires
        0 <= i < nodes.len(),
        nodes[i].1.0 >= MIN_REWARD_AGE,
    ensures
        ({
            let age = nodes[i].1.0 as int;
            let size = bucket_size(nodes, age);
            let rounds = amount / round_total(amount, nodes);
            let part = last_round_part(
                amount % round_total(amount, nodes),
                steps_below(amount, nodes, age),
                bucket_step(amount, nodes, age),
            );
            &&& size > 0
            &&& part <= pow2(age as nat) * bucket_multiplier(amount, nodes) * size
            &&& node_share(amount, nodes, i) == rounds * (pow2(age as nat) * bucket_multiplier(
                amount,
                nodes,
            )) + part / size + if earlier_in_bucket(nodes, i) == 0 {
                part % size
            } else {
                0
            }
        }),
{
    let age = nodes[i].1.0 as int;
    lemma_share_within_amount(amount, nodes, i);
    let size = bucket_size(nodes, age) as int;
    let rounds = (amount / round_total(amount, nodes)) as int;
    let step = bucket_step(amount, nodes, age) as int;
    let rate = pow2(age as nat) * bucket_multiplier(amount, nodes);
    let part = last_round_part(
        amount % round_total(amount, nodes),
        steps_below(amount, nodes, age),
        step as nat,
    ) as int;
    let reward = bucket_reward(amount, nodes, age) as int;
    lemma_rewarded_count_counts(nodes, i);
    lemma_round_total_positive(amount, nodes);
    assert(rounds >= 0) by (nonlinear_arith)
        requires
            amount >= 0,
            round_total(amount, nodes) > 0,
            rounds == amount as int / round_total(amount, nodes) as int,
    ;
    assert(step == rate * size) by (nonlinear_arith)
        requires
            step == pow2(age as nat) * size * bucket_multiplier(amount, nodes),
            rate == pow2(age as nat) * bucket_multiplier(amount, nodes),
    ;
    vstd::arithmetic::div_mod::lemma_fundamental_div_mod(part, size);
    vstd::arithmetic::div_mod::lemma_mod_bound(part, size);
    assert(reward == (rounds * rate + part / size) * size + part % size) by (nonlinear_arith)
        requires
            reward == rounds * step + part,
            step == rate * size,
            part == size * (part / size) + part % size,
    ;
    vstd::arithmetic::div_mod::lemma_fundamental_div_mod_converse(
        reward,
        size,
        rounds * rate + part / size,
        part % size,
    );
    assert(part / size >= 0) by (nonlinear_arith)
        requires
            part >= 0,
            size > 0,
    ;
    assert(rounds * rate >= 0) by (nonlinear_arith)
        requires
            rounds >= 0,
            rate >= 0,
    ;
}

/// What node `i` is paid of the last, partial round: an equal share of what its bucket
/// gets of that round, and what is left over of that if the node's name is the first of
/// the bucket.
pub open spec fn last_round_pay(amount: nat, nodes: Seq<(XorName, RewardNode)>, i: int) -> nat {
    let age = nodes[i].1.0 as int;
    let size = bucket_size(nodes, age);
    let part = last_round_part(
        amount % round_total(amount, nodes),
        steps_below(amount, nodes, age),
        bucket_step(amount, nodes, age),
    );
    part / size + if earlier_in_bucket(nodes, i) == 0 {
        part % size
    } else {
        0
    }
}

/// Of two nodes one step in age apart, the older earns no less than the younger exactly
/// where what the younger is paid for the whole rounds, together with what the older is
/// paid of the last round, makes up for what the younger is paid of the last round. For
/// the whole rounds the older is paid twice what the younger is paid.
pub proof fn lemma_older_against_younger(
    amount: nat,
    nodes: Seq<(XorName, RewardNode)>,
    younger: int,
    older: int,
)
    requires
        0 <= younger < nodes.len(),
        0 <= older < nodes.len(),
        nodes[younger].1.0 >= MIN_REWARD_AGE,
        nodes[older].1.0 == nodes[younger].1.0 + 1,
    ensures
        ({
            let whole_rounds = (amount / round_total(amount, nodes)) * (pow2(
                nodes[younger].1.0 as nat,
            ) * bucket_multiplier(amount, nodes));
            &&& node_share(amount, nodes, younger) == whole_rounds + last_round_pay(
                amount,
                nodes,
                younger,
            )
            &&& node_share(amount, nodes, older) == 2 * whole_rounds + last_round_pay(
                amount,
                nodes,
                older,
            )
            &&& node_share(amount, nodes, older) >= node_share(amount, nodes, younger)
                <==> whole_rounds + last_round_pay(amount, nodes, older) >= last_round_pay(
                amount,
                nodes,
                younger,
            )
        }),
{
    lemma_share_in_rounds(amount, nodes, younger);
    lemma_share_in_rounds(amount, nodes, older);
    lemma_last_round_pay_counts(amount, nodes, younger);
    lemma_last_round_pay_counts(amount, nodes, older);
    let a = nodes[younger].1.0 as nat;
    let rounds = (amount / round_total(amount, nodes)) as int;
    let m = bucket_multiplier(amount, nodes) as int;
    lemma_rewarded_count_counts(nodes, younger);
    lemma_round_total_positive(amount, nodes);
    assert(rounds >= 0) by (nonlinear_arith)
        requires
            amount >= 0,
            round_total(amount, nodes) > 0,
            rounds == amount as int / round_total(amount, nodes) as int,
    ;
    lemma_pow2_unfold(a + 1);
    assert(rounds * (pow2(a + 1) * m) == 2 * (rounds * (pow2(a) * m))) by (nonlinear_arith)
        requires
            pow2(a + 1) == 2 * pow2(a),
    ;
    let whole = rounds * (pow2(a) * m);
    assert(whole >= 0) by (nonlinear_arith)
        requires
            whole == rounds * (pow2(a) * m),
            rounds >= 0,
            m >= 0,
    ;
    assert(nodes[older].1.0 as nat == a + 1);
    assert(node_share(amount, nodes, younger) == whole + last_round_pay(amount, nodes, younger));
    assert(node_share(amount, nodes, older) == 2 * whole + last_round_pay(amount, nodes, older));
}

/// What a node is paid of the last round is what the parts of it add up to.
proof fn lemma_last_round_pay_counts(amount: nat, nodes: Seq<(XorName, RewardNode)>, i: int)
    requires
        0 <= i < nodes.len(),
        nodes[i].1.0 >= MIN_REWARD_AGE,
    ensures
        ({
            let age = nodes[i].1.0 as int;
            let size = bucket_size(nodes, age) as int;
            let part = last_round_part(
                amount % round_total(amount, nodes),
                steps_below(amount, nodes, age),
                bucket_step(amount, nodes, age),
            ) as int;
            last_round_pay(amount, nodes, i) as int == part / size + if earlier_in_bucket(nodes, i)
                == 0 {
                part % size
            } else {
                0
            }
        }),
{
    let age = nodes[i].1.0 as int;
    lemma_share_within_amount(amount, nodes, i);
    let size = bucket_size(nodes, age) as int;
    let part = last_round_part(
        amount % round_total(amount, nodes),
        steps_below(amount, nodes, age),
        bucket_step(amount, nodes, age),
    ) as int;
    assert(part / size >= 0 && part % size >= 0) by (nonlinear_arith)
        requires
            part >= 0,
            size > 0,
    ;
}

/// Whether the last, partial round of paying `amount` ends before the bucket of `age` is
/// served, so that the bucket is paid for whole rounds only.
pub open spec fn last_round_ends_before(
    amount: nat,
    nodes: Seq<(XorName, RewardNode)>,
    age: int,
) -> bool {
    amount % round_total(amount, nodes) <= steps_below(amount, nodes, age)
}

/// Whether node `i` is paid anything of what is left over when its bucket's pay is shared
/// out evenly.
pub open spec fn takes_left_over(amount: nat, nodes: Seq<(XorName, RewardNode)>, i: int) -> bool {
    earlier_in_bucket(nodes, i) == 0 && bucket_reward(amount, nodes, nodes[i].1.0 as int)
        % bucket_size(nodes, nodes[i].1.0 as int) != 0
}

/// Of two nodes one step in age apart, the older earns no less than the younger, in two
/// cases: the last round ends before the younger's bucket is served; or the amount pays for
/// a whole round at least and the younger takes nothing of what is left over of its bucket.
pub proof fn lemma_older_earns_no_less(
    amount: nat,
    nodes: Seq<(XorName, RewardNode)>,
    younger: int,
    older: int,
)
    requires
        0 <= younger < nodes.len(),
        0 <= older < nodes.len(),
        nodes[younger].1.0 >= MIN_REWARD_AGE,
        nodes[older].1.0 == nodes[younger].1.0 + 1,
        last_round_ends_before(amount, nodes, nodes[younger].1.0 as int) || (amount >= round_total(
            amount,
            nodes,
        ) && !takes_left_over(amount, nodes, younger)),
    ensures
        node_share(amount, nodes, older) >= node_share(amount, nodes, younger),
{
    let a = nodes[younger].1.0 as int;
    let b = a + 1;
    lemma_share_within_amount(amount, nodes, younger);
    lemma_share_within_amount(amount, nodes, older);
    lemma_rewarded_count_counts(nodes, younger);
    lemma_round_total_positive(amount, nodes);
    let whole = round_total(amount, nodes) as int;
    let rounds = (amount / round_total(amount, nodes)) as int;
    let m = bucket_multiplier(amount, nodes) as int;
    let size_a = bucket_size(nodes, a) as int;
    let size_b = bucket_size(nodes, b) as int;
    let step_a = bucket_step(amount, nodes, a) as int;
    let step_b = bucket_step(amount, nodes, b) as int;
    let reward_a = bucket_reward(amount, nodes, a) as int;
    let reward_b = bucket_reward(amount, nodes, b) as int;
    let rate = pow2(a as nat) * m;
    let extra: int = if last_round_ends_before(amount, nodes, a) {
        0
    } else {
        1
    };
    lemma_pow2_unfold(b as nat);
    vstd::arithmetic::power2::lemma_pow2_pos(a as nat);
    assert(rounds >= 0) by (nonlinear_arith)
        requires
            amount >= 0,
            whole > 0,
            rounds == amount as int / whole,
    ;
    if extra == 1 {
        assert(rounds >= 1) by (nonlinear_arith)
            requires
                amount >= whole,
                whole > 0,
                rounds == amount as int / whole,
        ;
    }
    assert(step_a == rate * size_a) by (nonlinear_arith)
        requires
            step_a == pow2(a as nat) * size_a * m,
            rate == pow2(a as nat) * m,
    ;
    assert(rounds * step_b == (2 * rounds * rate) * size_b) by (nonlinear_arith)
        requires
            step_b == pow2(b as nat) * size_b * m,
            pow2(b as nat) == 2 * pow2(a as nat),
            rate == pow2(a as nat) * m,
    ;
    assert(reward_a <= rounds * step_a + extra * step_a) by (nonlinear_arith)
        requires
            extra == 1 ==> reward_a <= rounds * step_a + step_a,
            extra == 0 ==> reward_a == rounds * step_a,
            extra == 0 || extra == 1,
    ;
    assert(reward_a <= ((rounds + extra) * rate) * size_a) by (nonlinear_arith)
        requires
            reward_a <= rounds * step_a + extra * step_a,
            step_a == rate * size_a,
    ;
    assert(reward_b >= (2 * rounds * rate) * size_b);
    assert(reward_a / size_a <= (rounds + extra) * rate) by {
        vstd::arithmetic::div_mod::lemma_div_is_ordered(
            reward_a,
            ((rounds + extra) * rate) * size_a,
            size_a,
        );
        vstd::arithmetic::div_mod::lemma_div_multiples_vanish((rounds + extra) * rate, size_a);
        assert(size_a * ((rounds + extra) * rate) == ((rounds + extra) * rate) * size_a)
            by (nonlinear_arith);
    }
    if extra == 0 {
        assert(reward_a % size_a == 0) by {
            assert(reward_a == size_a * (rounds * rate)) by (nonlinear_arith)
                requires
                    reward_a == rounds * step_a,
                    step_a == rate * size_a,
            ;
            vstd::arithmetic::div_mod::lemma_mod_multiples_basic(rounds * rate, size_a);
            assert((rounds * rate) * size_a == size_a * (rounds * rate)) by (nonlinear_arith);
        }
    }
    assert(node_share(amount, nodes, younger) == reward_a / size_a);
    assert(reward_b / size_b >= 2 * rounds * rate) by {
        vstd::arithmetic::div_mod::lemma_div_is_ordered(
            (2 * rounds * rate) * size_b,
            reward_b,
            size_b,
        );
        vstd::arithmetic::div_mod::lemma_div_multiples_vanish(2 * rounds * rate, size_b);
        assert(size_b * (2 * rounds * rate) == (2 * rounds * rate) * size_b) by (nonlinear_arith);
    }
    assert((rounds + extra) * rate <= 2 * rounds * rate) by (nonlinear_arith)
        requires
            rounds >= extra,
            extra >= 0,
            rate >= 0,
    ;
    assert(reward_b % size_b >= 0) by (nonlinear_arith)
        requires
            size_b >= 1,
            reward_b >= 0,
    ;
}

/// Minting at most doubles what was paid, and never takes the section beyond its supply.
pub proof fn lemma_mint_bound(payments: nat, section_managed: nat, max_supply: nat)
    ensures
        reward_and_mint(payments, section_managed, max_supply) <= 2 * payments,
        minted_amount(payments, section_managed, max_supply) <= payments,
        max_supply > section_managed ==> section_managed + minted_amount(
            payments,
            section_managed,
            max_supply,
        ) <= max_supply,
        max_supply <= section_managed ==> reward_and_mint(payments, section_managed, max_supply)
            <= payments,
{
}

} // verus!
