use gamefi_ledger::blockchain::Blockchain;
use gamefi_ledger::player::Item;
use gamefi_ledger::runtime::GameFiRuntime;
use rand::rngs::StdRng;
use rand::SeedableRng;

fn runtime_with(ids: &[&str]) -> GameFiRuntime {
    let mut runtime = GameFiRuntime::with_seed(7);
    for id in ids {
        runtime.ensure_player(id);
    }
    runtime
}

fn item(name: &str, value: u64) -> Item {
    Item { name: name.to_string(), value }
}

#[test]
fn a_new_runtime_is_empty_with_a_full_pool() {
    let runtime = GameFiRuntime::new();
    assert_eq!(runtime.players.len(), 0);
    assert_eq!(runtime.mining_pool.len(), 0);
    assert_eq!(runtime.pool_balance, 1_000_000);
    assert_eq!(runtime.get_mtoshi_balance("alice"), None);
}

#[test]
fn players_are_registered_once() {
    let mut runtime = GameFiRuntime::with_seed(1);
    assert_eq!(runtime.ensure_player("alice"), 0);
    assert_eq!(runtime.ensure_player("bob"), 1);
    assert_eq!(runtime.ensure_player("alice"), 0);
    assert_eq!(runtime.players.len(), 2);
    assert_eq!(runtime.players.values[0].id, "alice");
    assert_eq!(runtime.players.values[1].id, "bob");
    assert_eq!(runtime.get_mtoshi_balance("alice"), Some(0));
}

#[test]
fn each_activity_type_grants_its_points_and_experience() {
    let mut runtime = runtime_with(&["a", "b", "c", "d"]);
    runtime.record_activity_with("a", 1, false);
    runtime.record_activity_with("b", 2, false);
    runtime.record_activity_with("c", 3, false);
    runtime.record_activity_with("d", 4, false);
    let got: Vec<(u64, u64)> =
        runtime.players.values.iter().map(|p| (p.activity_points, p.experience)).collect();
    assert_eq!(got, vec![(10, 20), (15, 30), (5, 10), (20, 40)]);
    assert!(runtime.players.values.iter().all(|p| p.inventory.is_empty()));
}

#[test]
fn a_lucky_activity_drops_an_item_worth_half_the_experience() {
    let mut runtime = runtime_with(&["a"]);
    runtime.record_activity_with("a", 1, true);
    runtime.record_activity_with("a", 2, true);
    runtime.record_activity_with("a", 3, true);
    runtime.record_activity_with("a", 4, true);
    assert_eq!(
        runtime.players.values[0].inventory,
        vec![
            item("Activity 1 Reward", 10),
            item("Activity 2 Reward", 15),
            item("Activity 3 Reward", 5),
            item("Activity 4 Reward", 20),
        ]
    );
    assert_eq!(runtime.players.values[0].activity_points, 50);
    assert_eq!(runtime.players.values[0].level, 2);
    assert_eq!(runtime.players.values[0].experience, 0);
}

#[test]
fn an_unknown_activity_type_changes_nothing() {
    let mut runtime = runtime_with(&["a"]);
    runtime.record_activity_with("a", 0, true);
    runtime.record_activity_with("a", 5, true);
    runtime.record_activity_with("a", u32::MAX, false);
    let player = &runtime.players.values[0];
    assert_eq!((player.activity_points, player.experience, player.level), (0, 0, 1));
    assert!(player.inventory.is_empty());
}

#[test]
fn an_activity_of_an_unknown_player_changes_nothing() {
    let mut runtime = runtime_with(&["a"]);
    runtime.record_activity_with("ghost", 1, true);
    runtime.record_activity("ghost", 4);
    assert_eq!(runtime.players.len(), 1);
    assert_eq!(runtime.players.values[0].activity_points, 0);
}

#[test]
fn a_drawn_activity_always_grants_points_and_experience() {
    let mut runtime = runtime_with(&["a"]);
    for _ in 0..20 {
        runtime.record_activity("a", 3);
    }
    let player = &runtime.players.values[0];
    assert_eq!(player.activity_points, 100);
    assert_eq!((player.level, player.experience), (2, 100));
    assert!(player.inventory.len() <= 20);
    assert!(player.inventory.iter().all(|it| *it == item("Activity 3 Reward", 5)));
}

#[test]
fn the_stronger_roll_wins_the_battle() {
    let mut runtime = GameFiRuntime::with_seed(3);
    let first_won = runtime.battle_with("alice", "bob", 2, 9, false);
    assert!(!first_won);
    let alice = &runtime.players.values[0];
    let bob = &runtime.players.values[1];
    assert_eq!((alice.experience, alice.activity_points), (0, 0));
    assert_eq!((bob.experience, bob.activity_points), (30, 15));
    assert!(bob.inventory.is_empty());
}

#[test]
fn a_tie_goes_to_the_first_player() {
    let mut runtime = GameFiRuntime::with_seed(3);
    let first_won = runtime.battle_with("alice", "bob", 4, 4, true);
    assert!(first_won);
    let alice = &runtime.players.values[0];
    let bob = &runtime.players.values[1];
    assert_eq!((alice.experience, alice.activity_points), (30, 15));
    assert_eq!(alice.inventory, vec![item("Battle Trophy", 20)]);
    assert_eq!((bob.experience, bob.activity_points), (0, 0));
    assert!(bob.inventory.is_empty());
}

#[test]
fn strength_counts_in_a_battle() {
    let mut runtime = runtime_with(&["alice", "bob"]);
    runtime.players.values[1].strength = 20;
    assert!(!runtime.battle_with("alice", "bob", 9, 0, false));
    assert!(runtime.battle_with("alice", "bob", 10, 0, false));
    runtime.players.values[0].strength = u32::MAX;
    assert!(runtime.battle_with("alice", "bob", u32::MAX, u32::MAX, false));
}

#[test]
fn a_battle_registers_unknown_players() {
    let mut runtime = GameFiRuntime::with_seed(3);
    runtime.battle_with("alice", "bob", 0, 0, false);
    assert_eq!(runtime.players.keys, vec!["alice".to_string(), "bob".to_string()]);
    runtime.battle_with("carol", "alice", 0, 5, false);
    assert_eq!(
        runtime.players.keys,
        vec!["alice".to_string(), "bob".to_string(), "carol".to_string()]
    );
    assert_eq!(runtime.players.values[0].experience, 60);
    assert_eq!(runtime.players.values[2].experience, 0);
}

#[test]
fn a_player_who_fights_itself_wins() {
    let mut runtime = runtime_with(&["alice"]);
    runtime.players.values[0].mtoshi_balance = 77;
    assert!(!runtime.battle_with("alice", "alice", 0, 9, true));
    let alice = &runtime.players.values[0];
    assert_eq!(runtime.players.len(), 1);
    assert_eq!(alice.mtoshi_balance, 77);
    assert_eq!((alice.experience, alice.activity_points), (30, 15));
    assert_eq!(alice.inventory, vec![item("Battle Trophy", 20)]);
}

#[test]
fn a_drawn_battle_rewards_exactly_one_side() {
    let mut runtime = GameFiRuntime::with_seed(11);
    for _ in 0..50 {
        let before: Vec<u64> = runtime.players.values.iter().map(|p| p.activity_points).collect();
        let first_won = runtime.battle("alice", "bob");
        let alice = runtime.players.values[0].activity_points;
        let bob = runtime.players.values[1].activity_points;
        let (was_alice, was_bob) =
            if before.is_empty() { (0, 0) } else { (before[0], before[1]) };
        if first_won {
            assert_eq!((alice, bob), (was_alice + 15, was_bob));
        } else {
            assert_eq!((alice, bob), (was_alice, was_bob + 15));
        }
    }
}

#[test]
fn battle_rolls_stay_below_ten() {
    let mut runtime = GameFiRuntime::with_seed(5);
    let mut seen = [false; 10];
    for _ in 0..500 {
        let (roll1, roll2, _) = runtime.draw_battle();
        assert!(roll1 < 10);
        assert!(roll2 < 10);
        seen[roll1 as usize] = true;
        seen[roll2 as usize] = true;
    }
    assert!(seen.iter().all(|s| *s));
}

#[test]
fn picks_stay_below_four_and_cover_every_player() {
    let mut runtime = runtime_with(&["a", "b", "c"]);
    for _ in 0..100 {
        let picks = runtime.draw_picks();
        assert_eq!(picks.len(), 3);
        assert!(picks.iter().all(|pick| pick.0 < 4));
    }
}

#[test]
fn an_unknown_activity_never_drops_an_item() {
    let mut runtime = runtime_with(&["a"]);
    for _ in 0..200 {
        assert!(!runtime.draw_item_chance(0));
        assert!(!runtime.draw_item_chance(9));
    }
}

#[test]
fn the_same_seed_gives_the_same_draws() {
    let mut one = GameFiRuntime::with_seed(42);
    let mut two = GameFiRuntime::with_seed(42);
    for _ in 0..50 {
        assert_eq!(one.draw_battle(), two.draw_battle());
        assert_eq!(one.draw_item_chance(4), two.draw_item_chance(4));
    }
    let mut other = GameFiRuntime::with_seed(43);
    let mine: Vec<(u32, u32, bool)> = (0..50).map(|_| one.draw_battle()).collect();
    let theirs: Vec<(u32, u32, bool)> = (0..50).map(|_| other.draw_battle()).collect();
    assert_ne!(mine, theirs);
}

#[test]
fn the_same_seed_gives_the_same_game() {
    let mut one = GameFiRuntime::with_seed(2024);
    let mut two = GameFiRuntime::with_seed(2024);
    for round in 0..30u64 {
        for runtime in [&mut one, &mut two] {
            runtime.battle("alice", "bob");
            runtime.record_activity("alice", 2);
            runtime.mine_block("genesis", "bob".to_string(), round);
            runtime.simulate_player_activity();
        }
    }
    assert_eq!(one.players, two.players);
    assert_eq!(one.mining_pool, two.mining_pool);
}

#[test]
fn a_trade_swaps_the_two_items_in_place() {
    let mut runtime = runtime_with(&["alice", "bob"]);
    runtime.give_item("alice", item("Sword", 50));
    runtime.give_item("alice", item("Bow", 40));
    runtime.give_item("bob", item("Shield", 30));
    runtime.give_item("bob", item("Helm", 20));
    runtime.give_item("bob", item("Ring", 10));
    assert!(runtime.trade_items_with("alice", 1, "bob", 2, false, false));
    assert_eq!(runtime.players.values[0].inventory, vec![item("Sword", 50), item("Ring", 10)]);
    assert_eq!(
        runtime.players.values[1].inventory,
        vec![item("Shield", 30), item("Helm", 20), item("Bow", 40)]
    );
    for player in &runtime.players.values {
        assert_eq!((player.activity_points, player.experience), (5, 10));
    }
}

#[test]
fn a_lucky_trade_drops_an_item_behind_the_traded_ones() {
    let mut runtime = runtime_with(&["alice", "bob"]);
    runtime.give_item("alice", item("Sword", 50));
    runtime.give_item("bob", item("Shield", 30));
    assert!(runtime.trade_items_with("alice", 0, "bob", 0, true, false));
    assert_eq!(
        runtime.players.values[0].inventory,
        vec![item("Shield", 30), item("Activity 3 Reward", 5)]
    );
    assert_eq!(runtime.players.values[1].inventory, vec![item("Sword", 50)]);
}

#[test]
fn a_trade_with_an_index_out_of_range_changes_nothing() {
    let mut runtime = runtime_with(&["alice", "bob"]);
    runtime.give_item("alice", item("Sword", 50));
    runtime.give_item("bob", item("Shield", 30));
    let before = runtime.players.clone();
    assert!(!runtime.trade_items_with("alice", 1, "bob", 0, true, true));
    assert_eq!(runtime.players, before);
    assert!(!runtime.trade_items_with("alice", 0, "bob", 1, true, true));
    assert_eq!(runtime.players, before);
    assert!(!runtime.trade_items_with("alice", usize::MAX, "bob", usize::MAX, true, true));
    assert_eq!(runtime.players, before);
    assert!(!runtime.trade_items("alice", 0, "bob", 7));
    assert_eq!(runtime.players, before);
    assert!(!runtime.trade_items("alice", 3, "bob", 0));
    assert_eq!(runtime.players, before);
}

#[test]
fn a_trade_with_an_unknown_player_changes_nothing() {
    let mut runtime = runtime_with(&["alice"]);
    runtime.give_item("alice", item("Sword", 50));
    let before = runtime.players.clone();
    assert!(!runtime.trade_items_with("alice", 0, "ghost", 0, false, false));
    assert!(!runtime.trade_items_with("ghost", 0, "alice", 0, false, false));
    assert_eq!(runtime.players, before);
}

#[test]
fn a_trade_with_oneself_swaps_within_the_inventory() {
    let mut runtime = runtime_with(&["alice"]);
    runtime.give_item("alice", item("Sword", 50));
    runtime.give_item("alice", item("Bow", 40));
    assert!(runtime.trade_items_with("alice", 0, "alice", 1, false, false));
    assert_eq!(runtime.players.values[0].inventory, vec![item("Bow", 40), item("Sword", 50)]);
    assert_eq!(runtime.players.values[0].activity_points, 10);
}

#[test]
fn activity_rewards_are_shared_by_points() {
    let mut runtime = runtime_with(&["alice", "bob", "carol"]);
    runtime.players.values[0].activity_points = 10;
    runtime.players.values[1].activity_points = 30;
    runtime.players.values[1].mtoshi_balance = 1000;
    runtime.distribute_mtoshi_rewards();
    let got: Vec<(u64, u64)> =
        runtime.players.values.iter().map(|p| (p.mtoshi_balance, p.activity_points)).collect();
    assert_eq!(got, vec![(125, 0), (1375, 0), (0, 0)]);
    assert_eq!(runtime.pool_balance, 999_500);
}

#[test]
fn the_remainder_of_the_activity_reward_stays_undistributed() {
    let mut runtime = runtime_with(&["alice", "bob", "carol"]);
    for player in runtime.players.values.iter_mut() {
        player.activity_points = 1;
    }
    runtime.distribute_mtoshi_rewards();
    let got: Vec<u64> = runtime.players.values.iter().map(|p| p.mtoshi_balance).collect();
    assert_eq!(got, vec![166, 166, 166]);
    assert_eq!(runtime.pool_balance, 999_500);
}

#[test]
fn nothing_is_distributed_without_points() {
    let mut runtime = runtime_with(&["alice", "bob"]);
    runtime.distribute_mtoshi_rewards();
    assert_eq!(runtime.pool_balance, 1_000_000);
    assert_eq!(runtime.total_activity(), 0);
    assert!(runtime.players.values.iter().all(|p| p.mtoshi_balance == 0));
}

#[test]
fn nothing_is_distributed_from_a_pool_that_cannot_pay() {
    let mut runtime = runtime_with(&["alice"]);
    runtime.players.values[0].activity_points = 10;
    runtime.pool_balance = 499;
    runtime.distribute_mtoshi_rewards();
    assert_eq!(runtime.pool_balance, 499);
    assert_eq!(runtime.players.values[0].activity_points, 10);
    assert_eq!(runtime.players.values[0].mtoshi_balance, 0);
    runtime.pool_balance = 500;
    runtime.distribute_mtoshi_rewards();
    assert_eq!(runtime.pool_balance, 0);
    assert_eq!(runtime.players.values[0].mtoshi_balance, 500);
}

#[test]
fn huge_point_totals_are_added_without_overflow() {
    let mut runtime = runtime_with(&["alice", "bob"]);
    runtime.players.values[0].activity_points = u64::MAX;
    runtime.players.values[1].activity_points = u64::MAX;
    assert_eq!(runtime.total_activity(), 2 * (u64::MAX as u128));
    runtime.distribute_mtoshi_rewards();
    assert_eq!(runtime.players.values[0].mtoshi_balance, 250);
    assert_eq!(runtime.players.values[1].mtoshi_balance, 250);
}

#[test]
fn a_failed_mining_attempt_changes_nothing() {
    let mut runtime = runtime_with(&["alice"]);
    let before = runtime.players.clone();
    for computed_hash in [100, 999, 2100, u64::MAX] {
        let block =
            runtime.mine_block_with("prev", "alice".to_string(), 1, 9, computed_hash, 5, &vec![]);
        assert_eq!(block, None);
    }
    assert_eq!(runtime.players, before);
    assert_eq!(runtime.mining_pool.len(), 0);
}

#[test]
fn a_mined_block_pays_the_only_miner_in_full() {
    let mut runtime = runtime_with(&["alice"]);
    let block = runtime
        .mine_block_with("prev", "alice".to_string(), 3, 17, 1099, 1234, &vec![true])
        .unwrap();
    assert_eq!(block.index, 3);
    assert_eq!(block.timestamp, 1234);
    assert_eq!(block.previous_hash, "prev");
    assert_eq!(block.hash, "44b");
    assert_eq!(block.nonce, 17);
    assert_eq!(block.transactions.len(), 1);
    assert_eq!(block.transactions[0].sender, "system");
    assert_eq!(block.transactions[0].receiver, "alice");
    assert_eq!(block.transactions[0].amount, 50);
    assert_eq!(block.transactions[0].token, "Solutio");
    let alice = &runtime.players.values[0];
    assert_eq!(alice.solutio_balance, 50);
    assert_eq!((alice.level, alice.experience), (2, 0));
    assert_eq!(alice.inventory, vec![item("Mining Gem", 10)]);
    assert_eq!(runtime.mining_pool.amount("alice"), 50);
}

#[test]
fn a_mined_block_pays_by_cumulative_contribution() {
    let mut runtime = runtime_with(&["alice", "bob"]);
    runtime.mine_block_with("p", "alice".to_string(), 1, 0, 0, 0, &vec![]);
    runtime.mine_block_with("p", "bob".to_string(), 2, 0, 0, 0, &vec![]);
    let block =
        runtime.mine_block_with("p", "bob".to_string(), 3, 0, 99, 0, &vec![false, true]).unwrap();
    assert_eq!(runtime.mining_pool.amount("alice"), 50);
    assert_eq!(runtime.mining_pool.amount("bob"), 100);
    let amounts: Vec<(String, u128)> =
        block.transactions.iter().map(|t| (t.receiver.clone(), t.amount)).collect();
    assert_eq!(amounts, vec![("alice".to_string(), 16), ("bob".to_string(), 33)]);
    assert_eq!(block.hash, "63");
    assert_eq!(runtime.players.values[0].solutio_balance, 50 + 25 + 16);
    assert_eq!(runtime.players.values[1].solutio_balance, 25 + 33);
    assert!(runtime.players.values[0].inventory.is_empty());
    assert_eq!(runtime.players.values[1].inventory, vec![item("Mining Gem", 10)]);
}

#[test]
fn a_miner_who_is_no_player_contributes_but_is_not_paid() {
    let mut runtime = runtime_with(&["alice"]);
    runtime.mine_block_with("p", "ghost".to_string(), 1, 0, 0, 0, &vec![true, true]).unwrap();
    let block =
        runtime.mine_block_with("p", "alice".to_string(), 2, 0, 0, 0, &vec![true, false]).unwrap();
    assert_eq!(runtime.players.len(), 1);
    assert_eq!(runtime.mining_pool.keys, vec!["ghost".to_string(), "alice".to_string()]);
    assert_eq!(block.transactions.len(), 1);
    assert_eq!(block.transactions[0].receiver, "alice");
    assert_eq!(block.transactions[0].amount, 25);
    assert_eq!(runtime.players.values[0].solutio_balance, 25);
    assert!(runtime.players.values[0].inventory.is_empty());
}

#[test]
fn drawn_mining_succeeds_about_one_time_in_ten() {
    let mut runtime = runtime_with(&["alice"]);
    let mut mined = 0;
    for index in 0..2000u64 {
        if let Some(block) = runtime.mine_block("prev", "alice".to_string(), index) {
            mined += 1;
            assert_eq!(block.index, index);
            assert_eq!(block.previous_hash, "prev");
            assert!(u64::from_str_radix(&block.hash, 16).unwrap() % 1000 < 100);
            assert_eq!(block.transactions.len(), 1);
            assert_eq!(block.transactions[0].amount, 50);
        }
    }
    assert!(mined > 100 && mined < 320);
    assert_eq!(runtime.mining_pool.amount("alice"), 50 * mined);
    assert_eq!(runtime.players.values[0].solutio_balance, 50 * mined);
}

#[test]
fn a_simulation_follows_the_picks() {
    let mut runtime = runtime_with(&["a", "b", "c", "d", "e", "f"]);
    runtime.simulate_player_activity_with(&vec![
        (0, false),
        (1, true),
        (2, false),
        (3, true),
        (4, true),
    ]);
    let got: Vec<(u64, u64, usize)> = runtime
        .players
        .values
        .iter()
        .map(|p| (p.activity_points, p.experience, p.inventory.len()))
        .collect();
    assert_eq!(got, vec![(10, 20, 0), (15, 30, 1), (5, 10, 0), (20, 40, 1), (0, 0, 0), (0, 0, 0)]);
    assert_eq!(runtime.players.values[1].inventory, vec![item("Activity 2 Reward", 15)]);
}

#[test]
fn a_drawn_simulation_gives_every_player_one_activity() {
    let mut runtime = runtime_with(&["a", "b", "c"]);
    runtime.simulate_player_activity();
    for player in &runtime.players.values {
        assert!([(10, 20), (15, 30), (5, 10), (20, 40)]
            .contains(&(player.activity_points, player.experience)));
    }
}

#[test]
fn balances_are_debited_and_credited() {
    let mut runtime = runtime_with(&["alice"]);
    assert!(runtime.can_pay("alice", 0));
    assert!(!runtime.can_pay("alice", 1));
    assert!(!runtime.can_pay("ghost", 0));
    runtime.credit("alice", 10);
    runtime.credit("ghost", 10);
    assert!(runtime.can_pay("alice", 10));
    runtime.debit("alice", 4);
    assert_eq!(runtime.get_mtoshi_balance("alice"), Some(6));
    assert_eq!(runtime.get_mtoshi_balance("ghost"), None);
    runtime.credit("alice", u64::MAX);
    assert_eq!(runtime.get_mtoshi_balance("alice"), Some(u64::MAX));
}

#[test]
fn items_are_taken_by_position() {
    let mut runtime = runtime_with(&["alice"]);
    runtime.give_item("alice", item("Sword", 50));
    runtime.give_item("alice", item("Bow", 40));
    runtime.give_item("alice", item("Ring", 10));
    assert!(runtime.has_item("alice", 2));
    assert!(!runtime.has_item("alice", 3));
    assert!(!runtime.has_item("ghost", 0));
    assert_eq!(runtime.item_name("alice", 1), Some("Bow".to_string()));
    assert_eq!(runtime.item_name("alice", 3), None);
    assert_eq!(runtime.take_item("alice", 0), item("Sword", 50));
    assert_eq!(runtime.players.values[0].inventory, vec![item("Bow", 40), item("Ring", 10)]);
}

#[test]
fn the_leaderboard_lists_players_as_first_seen() {
    let mut runtime = runtime_with(&["alice", "bob"]);
    runtime.players.values[1].gain_experience(150);
    runtime.players.values[1].solutio_balance = 5;
    runtime.players.values[0].mtoshi_balance = 9;
    assert_eq!(
        runtime.leaderboard(),
        vec![("alice".to_string(), 1, 0, 0, 9), ("bob".to_string(), 2, 50, 5, 0)]
    );
}

#[test]
fn the_ranking_goes_by_level_then_experience_then_arrival() {
    let mut runtime = runtime_with(&["a", "b", "c", "d", "e"]);
    runtime.players.values[0].gain_experience(50);
    runtime.players.values[1].gain_experience(120);
    runtime.players.values[2].gain_experience(50);
    runtime.players.values[3].gain_experience(310);
    runtime.players.values[4].gain_experience(199);
    let ranked: Vec<(String, u32, u64)> =
        runtime.show_leaderboard().into_iter().map(|row| (row.0, row.1, row.2)).collect();
    assert_eq!(
        ranked,
        vec![
            ("d".to_string(), 3, 10),
            ("e".to_string(), 2, 99),
            ("b".to_string(), 2, 20),
            ("a".to_string(), 1, 50),
            ("c".to_string(), 1, 50),
        ]
    );
    assert_eq!(GameFiRuntime::with_seed(0).show_leaderboard(), vec![]);
}

#[test]
fn a_runtime_changed_through_its_functions_stays_well_formed() {
    let mut runtime = GameFiRuntime::with_seed(17);
    assert!(runtime.is_well_formed());
    for round in 0..40u64 {
        runtime.battle("alice", "bob");
        runtime.record_activity("alice", (round % 6) as u32);
        runtime.mine_block("genesis", "carol".to_string(), round);
        runtime.mine_block_with("genesis", "alice".to_string(), round, 0, 7, 0, &vec![true]);
        runtime.trade_items("alice", 0, "bob", 0);
        runtime.simulate_player_activity();
        runtime.distribute_mtoshi_rewards();
        assert!(runtime.is_well_formed());
    }
    assert!(runtime.players.values.iter().all(|p| p.is_well_formed()));
    assert!(runtime.players.is_well_formed());
}

#[test]
fn a_runtime_tampered_with_is_found_out() {
    let mut runtime = runtime_with(&["alice", "bob"]);
    runtime.players.keys[1] = "alice".to_string();
    assert!(!runtime.is_well_formed());
    let mut runtime = runtime_with(&["alice", "bob"]);
    runtime.players.values.pop();
    assert!(!runtime.is_well_formed());
    let mut runtime = runtime_with(&["alice", "bob"]);
    runtime.mining_pool.keys.push("alice".to_string());
    assert!(!runtime.is_well_formed());
    let mut runtime = runtime_with(&["alice", "bob"]);
    runtime.players.values[1].level = u32::MAX;
    runtime.players.values[1].experience = u64::MAX;
    assert!(runtime.is_well_formed());
    runtime.players.values[1].level = u32::MAX - 1;
    assert!(!runtime.is_well_formed());
}

#[test]
fn a_seeded_runtime_holds_the_generator_of_its_seed() {
    for seed in [0, 1, 42, u64::MAX] {
        assert_eq!(GameFiRuntime::with_seed(seed).dice, StdRng::seed_from_u64(seed));
        assert_eq!(
            Blockchain::with_seed(seed).full_gamefi_runtime.dice,
            StdRng::seed_from_u64(seed)
        );
    }
    assert_ne!(GameFiRuntime::with_seed(1).dice, StdRng::seed_from_u64(2));
    assert_ne!(Blockchain::with_seed(1).full_gamefi_runtime.dice, StdRng::seed_from_u64(0));
}
