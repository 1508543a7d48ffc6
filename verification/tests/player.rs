use gamefi_ledger::player::{Item, Player};
use gamefi_ledger::table::Table;

#[test]
fn a_new_player_starts_at_level_one() {
    let player = Player::new("alice".to_string());
    assert_eq!(player.id, "alice");
    assert_eq!(player.solutio_balance, 0);
    assert_eq!(player.mtoshi_balance, 0);
    assert_eq!(player.activity_points, 0);
    assert_eq!(player.level, 1);
    assert_eq!(player.experience, 0);
    assert_eq!(player.strength, 10);
    assert!(player.inventory.is_empty());
}

#[test]
fn the_threshold_is_a_hundred_times_the_level() {
    assert_eq!(Player::xp_for_next_level(1), 100);
    assert_eq!(Player::xp_for_next_level(3), 300);
    assert_eq!(Player::xp_for_next_level(0), 0);
    assert_eq!(Player::xp_for_next_level(u32::MAX), 429_496_729_500);
}

#[test]
fn experience_below_the_threshold_keeps_the_level() {
    let mut player = Player::new("alice".to_string());
    player.gain_experience(99);
    assert_eq!((player.level, player.experience, player.strength), (1, 99, 10));
    player.gain_experience(0);
    assert_eq!((player.level, player.experience, player.strength), (1, 99, 10));
}

#[test]
fn reaching_the_threshold_raises_level_and_strength() {
    let mut player = Player::new("alice".to_string());
    player.gain_experience(100);
    assert_eq!((player.level, player.experience, player.strength), (2, 0, 12));
}

#[test]
fn one_gain_can_raise_several_levels() {
    let mut player = Player::new("alice".to_string());
    player.gain_experience(350);
    assert_eq!((player.level, player.experience, player.strength), (3, 50, 14));
    player.gain_experience(250);
    assert_eq!((player.level, player.experience, player.strength), (4, 0, 16));
}

#[test]
fn gaining_experience_touches_nothing_else() {
    let mut player = Player::new("alice".to_string());
    player.mtoshi_balance = 7;
    player.solutio_balance = 8;
    player.activity_points = 9;
    player.add_item(Item { name: "Sword".to_string(), value: 50 });
    player.gain_experience(1000);
    assert_eq!(player.id, "alice");
    assert_eq!(player.mtoshi_balance, 7);
    assert_eq!(player.solutio_balance, 8);
    assert_eq!(player.activity_points, 9);
    assert_eq!(player.inventory, vec![Item { name: "Sword".to_string(), value: 50 }]);
    assert_eq!((player.level, player.experience, player.strength), (5, 0, 18));
}

#[test]
fn experience_is_held_at_the_largest_amount() {
    let mut player = Player::new("alice".to_string());
    player.level = u32::MAX;
    player.experience = u64::MAX - 1;
    player.gain_experience(5);
    assert_eq!(player.level, u32::MAX);
    assert_eq!(player.experience, u64::MAX);
}

#[test]
fn the_level_stops_at_the_largest_level() {
    let mut player = Player::new("alice".to_string());
    player.level = u32::MAX - 1;
    player.strength = u32::MAX - 1;
    player.gain_experience(u64::MAX);
    assert_eq!(player.level, u32::MAX);
    assert_eq!(player.strength, u32::MAX);
    assert_eq!(player.experience, u64::MAX - 429_496_729_400);
}

#[test]
fn items_are_appended_in_order() {
    let mut player = Player::new("alice".to_string());
    player.add_item(Item { name: "Sword".to_string(), value: 50 });
    player.add_item(Item { name: "Shield".to_string(), value: 30 });
    assert_eq!(
        player.inventory,
        vec![
            Item { name: "Sword".to_string(), value: 50 },
            Item { name: "Shield".to_string(), value: 30 },
        ]
    );
}

#[test]
fn a_table_keeps_keys_in_order_of_first_insertion() {
    let mut table: Table<u64> = Table::new();
    assert_eq!(table.len(), 0);
    assert_eq!(table.insert("b".to_string(), 1), 0);
    assert_eq!(table.insert("a".to_string(), 2), 1);
    assert_eq!(table.insert("b".to_string(), 3), 0);
    assert_eq!(table.len(), 2);
    assert_eq!(table.keys, vec!["b".to_string(), "a".to_string()]);
    assert_eq!(table.values, vec![3, 2]);
}

#[test]
fn a_table_finds_a_key_by_its_text() {
    let mut table: Table<u64> = Table::new();
    table.insert("alice".to_string(), 1);
    table.insert("bob".to_string(), 2);
    table.insert("alic".to_string(), 3);
    assert_eq!(table.position("alice"), Some(0));
    assert_eq!(table.position("bob"), Some(1));
    assert_eq!(table.position("alic"), Some(2));
    assert_eq!(table.position("carol"), None);
    assert_eq!(table.position(""), None);
    assert!(table.contains_key("bob"));
    assert!(!table.contains_key("Bob"));
    assert_eq!(table.get("bob"), Some(&2));
    assert_eq!(table.get("carol"), None);
}

#[test]
fn a_tally_starts_from_nothing_and_adds_up() {
    let mut tally: Table<u64> = Table::new();
    assert_eq!(tally.amount("alice"), 0);
    tally.credit("alice", 5);
    tally.credit("bob", 7);
    tally.credit("alice", 6);
    assert_eq!(tally.amount("alice"), 11);
    assert_eq!(tally.amount("bob"), 7);
    assert_eq!(tally.total(), 18);
    tally.credit("bob", u64::MAX);
    assert_eq!(tally.amount("bob"), u64::MAX);
    assert_eq!(tally.total(), u64::MAX as u128 + 11);
}

#[test]
fn a_tally_raises_and_counts() {
    let mut tally: Table<u64> = Table::new();
    tally.credit("gold", 1);
    tally.credit("iron", u64::MAX - 3);
    tally.raise_all(10);
    assert_eq!(tally.amount("gold"), 11);
    assert_eq!(tally.amount("iron"), u64::MAX);
    let mut counters: Table<u64> = Table::new();
    counters.count_each(&vec!["gold".to_string(), "iron".to_string(), "gold".to_string()]);
    assert_eq!(counters.amount("gold"), 2);
    assert_eq!(counters.amount("iron"), 1);
    assert_eq!(counters.keys, vec!["gold".to_string(), "iron".to_string()]);
}
