use gamefi_ledger::economy::{
    burn, clip_to_cap, mining_reward, share_of, split_revenue, BOOST_MAX_COST, BOOST_MIN_COST,
    DAILY_CEILING, PAID_LIKE_COST, SCALE,
};
use gamefi_ledger::text::{decimal_string, hex_string};

#[test]
fn burn_is_one_percent_rounded_down() {
    assert_eq!(burn(1000), 10);
    assert_eq!(burn(199), 1);
    assert_eq!(burn(99), 0);
    assert_eq!(burn(0), 0);
    assert_eq!(burn(10 * SCALE), 100_000_000);
    assert_eq!(burn(u64::MAX), u64::MAX / 100);
}

#[test]
fn paid_like_splits_eighty_ten_ten() {
    let split = split_revenue(PAID_LIKE_COST);
    assert_eq!(split.creator, 40_000_000);
    assert_eq!(split.platform, 5_000_000);
    assert_eq!(split.community, 5_000_000);
    assert_eq!(split.creator + split.platform + split.community, PAID_LIKE_COST);
}

#[test]
fn boost_costs_split_without_remainder() {
    let low = split_revenue(BOOST_MIN_COST);
    assert_eq!((low.creator, low.platform, low.community), (800_000_000, 100_000_000, 100_000_000));
    assert_eq!(low.creator + low.platform + low.community, BOOST_MIN_COST);
    let high = split_revenue(BOOST_MAX_COST);
    assert_eq!(
        (high.creator, high.platform, high.community),
        (1_600_000_000, 200_000_000, 200_000_000)
    );
    assert_eq!(high.creator + high.platform + high.community, BOOST_MAX_COST);
}

#[test]
fn every_share_is_rounded_down() {
    let split = split_revenue(9);
    assert_eq!((split.creator, split.platform, split.community), (7, 0, 0));
    let split = split_revenue(19);
    assert_eq!((split.creator, split.platform, split.community), (15, 1, 1));
    let split = split_revenue(0);
    assert_eq!((split.creator, split.platform, split.community), (0, 0, 0));
}

#[test]
fn split_of_the_largest_amount_does_not_overflow() {
    let split = split_revenue(u64::MAX);
    assert_eq!(split.platform, u64::MAX / 10);
    assert_eq!(split.community, u64::MAX / 10);
    assert_eq!(split.creator, ((u64::MAX as u128) * 8 / 10) as u64);
}

#[test]
fn multiples_of_ten_split_exactly() {
    let mut cost: u64 = 0;
    while cost <= 5000 {
        let split = split_revenue(cost);
        assert_eq!(split.creator + split.platform + split.community, cost);
        cost += 10;
    }
}

#[test]
fn mining_reward_steps_up_with_reputation() {
    assert_eq!(mining_reward(1000, 0), 100_000_000);
    assert_eq!(mining_reward(1000, 100), 100_000_000);
    assert_eq!(mining_reward(1000, 101), 120_000_000);
    assert_eq!(mining_reward(1000, 200), 120_000_000);
    assert_eq!(mining_reward(1000, 201), 150_000_000);
    assert_eq!(mining_reward(1000, 300), 150_000_000);
    assert_eq!(mining_reward(1000, 301), 200_000_000);
    assert_eq!(mining_reward(1000, u64::MAX), 200_000_000);
}

#[test]
fn mining_reward_steps_down_with_population() {
    assert_eq!(mining_reward(0, 0), 100_000_000);
    assert_eq!(mining_reward(1_000_000, 0), 100_000_000);
    assert_eq!(mining_reward(1_000_001, 0), 50_000_000);
    assert_eq!(mining_reward(10_000_000, 0), 50_000_000);
    assert_eq!(mining_reward(10_000_001, 0), 10_000_000);
    assert_eq!(mining_reward(50_000_000, 0), 10_000_000);
    assert_eq!(mining_reward(50_000_001, 0), 1_000_000);
    assert_eq!(mining_reward(50_000_001, 301), 2_000_000);
    assert_eq!(mining_reward(10_000_001, 150), 12_000_000);
}

#[test]
fn cap_lets_through_what_is_left() {
    assert_eq!(clip_to_cap(0, SCALE), SCALE);
    assert_eq!(clip_to_cap(0, DAILY_CEILING), DAILY_CEILING);
    assert_eq!(clip_to_cap(0, DAILY_CEILING + 1), DAILY_CEILING);
    assert_eq!(clip_to_cap(DAILY_CEILING - 5, 10), 5);
    assert_eq!(clip_to_cap(DAILY_CEILING, 1), 0);
    assert_eq!(clip_to_cap(DAILY_CEILING + 7, 1), 0);
    assert_eq!(clip_to_cap(499 * SCALE, 2 * SCALE), SCALE);
    assert_eq!(clip_to_cap(17, 0), 0);
}

#[test]
fn shares_are_proportional_and_rounded_down() {
    assert_eq!(share_of(10, 500, 40), 125);
    assert_eq!(share_of(30, 500, 40), 375);
    assert_eq!(share_of(1, 50, 3), 16);
    assert_eq!(share_of(2, 50, 3), 33);
    assert_eq!(share_of(3, 50, 3), 50);
    assert_eq!(share_of(5, 500, 0), 0);
    assert_eq!(share_of(7, 500, 5), 0);
    assert_eq!(share_of(u64::MAX, u64::MAX, u64::MAX as u128), u64::MAX);
    assert_eq!(share_of(u64::MAX, 500, 2 * (u64::MAX as u128)), 250);
}

#[test]
fn numbers_are_written_in_hexadecimal() {
    assert_eq!(hex_string(0), "0");
    assert_eq!(hex_string(9), "9");
    assert_eq!(hex_string(10), "a");
    assert_eq!(hex_string(255), "ff");
    assert_eq!(hex_string(4096), "1000");
    assert_eq!(hex_string(0xdead_beef), "deadbeef");
    assert_eq!(hex_string(u64::MAX), "ffffffffffffffff");
    assert_eq!(hex_string(0x1234_5678_9abc_def0), format!("{:x}", 0x1234_5678_9abc_def0u64));
}

#[test]
fn numbers_are_written_in_decimal() {
    assert_eq!(decimal_string(0), "0");
    assert_eq!(decimal_string(7), "7");
    assert_eq!(decimal_string(1000), "1000");
    assert_eq!(decimal_string(1_000_000_007), "1000000007");
    assert_eq!(decimal_string(u64::MAX), "18446744073709551615");
}
