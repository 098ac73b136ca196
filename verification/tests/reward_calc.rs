use sn_node::keys::PublicKey;
use sn_node::name::XorName;
use sn_node::name_map::NameMap;
use sn_node::section_funds::reward_calc::{
    distribute_rewards, get_reward_and_mint_amount, NodeAge, MIN_REWARD_AGE,
};
use sn_node::token::Token;

fn get_random_pk() -> PublicKey {
    PublicKey::Bls(threshold_crypto::SecretKey::random().public_key().to_bytes())
}

fn random_name() -> XorName {
    XorName(xor_name::XorName::random().0)
}

fn name(n: u8) -> XorName {
    let mut bytes = [0u8; 32];
    bytes[31] = n;
    XorName(bytes)
}

fn wallet(n: u8) -> PublicKey {
    PublicKey::Ed25519([n; 32])
}

fn nodes_of(ages: &[(u8, NodeAge)]) -> NameMap<(NodeAge, PublicKey)> {
    let mut nodes = NameMap::new();
    for (n, age) in ages {
        let _ = nodes.insert(name(*n), (*age, wallet(*n)));
    }
    nodes
}

fn share(rewards: &NameMap<(NodeAge, PublicKey, Token)>, n: u8) -> u64 {
    rewards.get(&name(n)).map(|entry| entry.2.as_nano()).unwrap()
}

fn total(rewards: &NameMap<(NodeAge, PublicKey, Token)>) -> u64 {
    let mut sum = 0u64;
    for i in 0..rewards.len() {
        sum += rewards.value_at(i).2.as_nano();
    }
    sum
}

#[test]
fn calculates_reward_distribution() {
    // setup
    let amount = Token::from_nano(u32::MAX as u64 * 1_000_000_000);
    println!("Paid to section: {:?}", amount.as_nano());
    println!();

    let iters = 10;
    let mut nodes = NameMap::<(NodeAge, PublicKey)>::new();
    for i in 0..iters {
        let _ = nodes.insert(random_name(), (i + MIN_REWARD_AGE - 1, get_random_pk()));
        let _ = nodes.insert(random_name(), (i + MIN_REWARD_AGE, get_random_pk()));
        let _ = nodes.insert(random_name(), (i + MIN_REWARD_AGE, get_random_pk()));
    }

    println!("Added {} nodes", nodes.len());

    // start timer
    let now = std::time::Instant::now();

    // calc
    let rewards = distribute_rewards(amount, nodes);

    // stop timer
    let duration = now.elapsed();

    println!();
    println!("Elapsed: {:?} ms", duration.as_millis());
    println!();

    let mut total = 0;
    let mut amounts = Vec::new();
    for i in 0..rewards.len() {
        amounts.push(rewards.value_at(i).2);
    }
    amounts.sort();
    for amount in amounts {
        println!("{:?}", amount.as_nano());
        total += amount.as_nano();
    }

    println!();

    println!("Total rewards: {:?}", total);
    assert_eq!(total, amount.as_nano());
    assert_eq!(rewards.len(), 29);
}

#[test]
fn mint_branch_doubles_the_payments() {
    let reward = get_reward_and_mint_amount(
        Token::from_nano(100),
        Token::from_nano(0),
        Token::from_nano(1000),
    );
    assert_eq!(reward, Token::from_nano(200));
}

#[test]
fn mint_branch_stops_at_the_supply() {
    let reward = get_reward_and_mint_amount(
        Token::from_nano(100),
        Token::from_nano(960),
        Token::from_nano(1000),
    );
    assert_eq!(reward, Token::from_nano(140));
    let reward = get_reward_and_mint_amount(
        Token::from_nano(100),
        Token::from_nano(999),
        Token::from_nano(1000),
    );
    assert_eq!(reward, Token::from_nano(101));
}

#[test]
fn burn_branch_burns_the_excess() {
    let reward = get_reward_and_mint_amount(
        Token::from_nano(50),
        Token::from_nano(1200),
        Token::from_nano(1000),
    );
    assert_eq!(reward, Token::from_nano(0));
    let reward = get_reward_and_mint_amount(
        Token::from_nano(500),
        Token::from_nano(1200),
        Token::from_nano(1000),
    );
    assert_eq!(reward, Token::from_nano(300));
    let reward = get_reward_and_mint_amount(
        Token::from_nano(200),
        Token::from_nano(1200),
        Token::from_nano(1000),
    );
    assert_eq!(reward, Token::from_nano(0));
    let reward = get_reward_and_mint_amount(
        Token::from_nano(70),
        Token::from_nano(1000),
        Token::from_nano(1000),
    );
    assert_eq!(reward, Token::from_nano(70));
}

#[test]
fn mint_is_cut_to_the_largest_amount() {
    let reward = get_reward_and_mint_amount(
        Token::from_nano(u64::MAX - 5),
        Token::from_nano(0),
        Token::from_nano(10),
    );
    assert_eq!(reward, Token::from_nano(u64::MAX));
    let reward = get_reward_and_mint_amount(
        Token::from_nano(u64::MAX),
        Token::from_nano(0),
        Token::from_nano(u64::MAX),
    );
    assert_eq!(reward, Token::from_nano(u64::MAX));
}

#[test]
fn mint_is_at_most_twice_the_payments() {
    for payments in [0u64, 1, 7, 100, 5000] {
        for managed in [0u64, 10, 999, 1000, 1001, 4000] {
            let reward = get_reward_and_mint_amount(
                Token::from_nano(payments),
                Token::from_nano(managed),
                Token::from_nano(1000),
            )
            .as_nano();
            assert!(reward <= 2 * payments);
            if managed < 1000 {
                let minted = reward - payments;
                assert!(managed + minted <= 1000);
            } else {
                assert!(reward <= payments);
            }
        }
    }
}

#[test]
fn distributes_among_ages_six_six_seven() {
    let rewards = distribute_rewards(Token::from_nano(1000), nodes_of(&[(1, 6), (2, 6), (3, 7)]));
    assert_eq!(rewards.len(), 3);
    assert_eq!(share(&rewards, 1), 256);
    assert_eq!(share(&rewards, 2), 256);
    assert_eq!(share(&rewards, 3), 488);
    assert!(share(&rewards, 3) >= share(&rewards, 1));
    assert!(share(&rewards, 3) >= share(&rewards, 2));
    assert_eq!(total(&rewards), 1000);
    assert_eq!(rewards.get(&name(3)), Some(&(7, wallet(3), Token::from_nano(488))));
}

#[test]
fn nodes_below_the_minimum_age_get_nothing() {
    let rewards = distribute_rewards(
        Token::from_nano(1000),
        nodes_of(&[(1, 5), (2, 6), (3, 0), (4, 7)]),
    );
    assert_eq!(rewards.len(), 2);
    assert!(rewards.get(&name(1)).is_none());
    assert!(rewards.get(&name(3)).is_none());
    assert_eq!(total(&rewards), 1000);
    assert_eq!(rewards.name_at(0), name(2));
    assert_eq!(rewards.name_at(1), name(4));
}

#[test]
fn nothing_is_distributed_without_rewarded_nodes() {
    let rewards = distribute_rewards(Token::from_nano(1000), nodes_of(&[(1, 5), (2, 3)]));
    assert!(rewards.is_empty());
    let rewards = distribute_rewards(Token::from_nano(1000), NameMap::new());
    assert!(rewards.is_empty());
}

#[test]
fn left_over_goes_to_the_first_name_of_the_bucket() {
    // One bucket of three nodes: 100 = 3 * 33 + 1.
    let rewards = distribute_rewards(Token::from_nano(100), nodes_of(&[(3, 6), (1, 6), (2, 6)]));
    assert_eq!(share(&rewards, 1), 34);
    assert_eq!(share(&rewards, 2), 33);
    assert_eq!(share(&rewards, 3), 33);
    assert_eq!(total(&rewards), 100);
}

#[test]
fn a_small_amount_goes_to_the_youngest_bucket_first() {
    // One round pays 64 to the bucket of age 6 and 128 to that of age 7.
    let rewards = distribute_rewards(Token::from_nano(64), nodes_of(&[(1, 6), (2, 7)]));
    assert_eq!(rewards.len(), 2);
    assert_eq!(share(&rewards, 1), 64);
    assert_eq!(share(&rewards, 2), 0);
    let rewards = distribute_rewards(Token::from_nano(100), nodes_of(&[(1, 6), (2, 7)]));
    assert_eq!(share(&rewards, 1), 64);
    assert_eq!(share(&rewards, 2), 36);
    let rewards = distribute_rewards(Token::from_nano(192), nodes_of(&[(1, 6), (2, 7)]));
    assert_eq!(share(&rewards, 1), 64);
    assert_eq!(share(&rewards, 2), 128);
}

#[test]
fn whole_rounds_double_the_pay_with_every_step_in_age() {
    // One round pays 64 + 128 + 256 = 448.
    let rewards =
        distribute_rewards(Token::from_nano(4480), nodes_of(&[(1, 6), (2, 7), (3, 8)]));
    assert_eq!(share(&rewards, 1), 640);
    assert_eq!(share(&rewards, 2), 1280);
    assert_eq!(share(&rewards, 3), 2560);
}

#[test]
fn the_multiplier_shortens_large_amounts() {
    // amount 10^9: share = 10^9 / (7 * 3) = 47_619_047, divisor = 7 * 10 = 70,
    // multiplier = 680_272; one round pays 680_272 * (2 * 64 + 128) = 174_149_632.
    let rewards = distribute_rewards(
        Token::from_nano(1_000_000_000),
        nodes_of(&[(1, 6), (2, 6), (3, 7)]),
    );
    // Five whole rounds, and 129_251_840 left for the last one.
    assert_eq!(share(&rewards, 1), (5 * 87_074_816 + 87_074_816) / 2);
    assert_eq!(share(&rewards, 2), (5 * 87_074_816 + 87_074_816) / 2);
    assert_eq!(share(&rewards, 3), 5 * 87_074_816 + 42_177_024);
    assert_eq!(total(&rewards), 1_000_000_000);
}

#[test]
fn zero_amount_gives_every_rewarded_node_nothing() {
    let rewards = distribute_rewards(Token::from_nano(0), nodes_of(&[(1, 6), (2, 9)]));
    assert_eq!(rewards.len(), 2);
    assert_eq!(share(&rewards, 1), 0);
    assert_eq!(share(&rewards, 2), 0);
}

#[test]
fn very_old_nodes_do_not_overflow() {
    let rewards = distribute_rewards(
        Token::from_nano(u64::MAX),
        nodes_of(&[(1, 6), (2, 64), (3, 200), (4, 255)]),
    );
    assert_eq!(rewards.len(), 4);
    assert_eq!(total(&rewards), u64::MAX);
    // The multiplier is (amount / (255 * 4)) / (255 * 20). One round pays more than
    // there is: the buckets are served by rising age.
    let multiplier = 3_546_086_903_827u64;
    assert_eq!((u64::MAX / 1020) / 5100, multiplier);
    assert_eq!(share(&rewards, 1), 64 * multiplier);
    assert_eq!(share(&rewards, 1), 226_949_561_844_928);
    assert_eq!(share(&rewards, 2), u64::MAX - 64 * multiplier);
    assert_eq!(share(&rewards, 3), 0);
    assert_eq!(share(&rewards, 4), 0);
}

#[test]
fn shares_add_up_for_many_amounts() {
    for amount in [1u64, 63, 64, 65, 999, 12_345, 1_000_003, 77_777_777_777] {
        let rewards = distribute_rewards(
            Token::from_nano(amount),
            nodes_of(&[(1, 6), (2, 6), (3, 7), (4, 9), (5, 9), (6, 9), (7, 3)]),
        );
        assert_eq!(rewards.len(), 6);
        assert_eq!(total(&rewards), amount);
    }
}
