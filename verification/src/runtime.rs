//! The player runtime: activities, battles, trades, the mining pool and the
//! distribution of activity rewards.

pub mod catena_node;
pub mod rules;

use self::catena_node::{transaction_views, Block, Transaction, TransactionView};
use self::rules::{
    activity_item_chance, block_view, is_ranking, lemma_item_views_remove,
    lemma_item_views_update, lemma_set_player_wf, mining_transactions, pay_miners, point_list,
    ranked, ranks_before, RuntimeView,
};
use crate::action::{leaderboard_views, LeaderboardRow};
use crate::chance::{
    draw_below, draw_chance, draw_u64, entropy_generator, seeded_generator, seeded_rng,
};
use crate::clock::unix_seconds;
use crate::economy::{share_of, ACTIVITY_POOL_REWARD, BLOCK_REWARD};
use crate::player::{Item, Player, PlayerView};
use crate::table::{lemma_sum_of_bounds, sum_of, Table};
use crate::text::hex_string;
use rand::rngs::StdRng;
use vstd::prelude::*;

verus! {

impl Player {
    /// Applies an activity of the given type to this player.
    pub fn perform_activity(&mut self, activity_type: u32, bonus: bool)
        requires
            old(self)@.wf(),
        ensures
            final(self)@ == old(self)@.after_activity(activity_type, bonus),
            final(self)@.wf(),
            final(self)@.id == old(self)@.id,
    {
        let points: u64 = match activity_type {
            1 => 10,
            2 => 15,
            3 => 5,
            4 => 20,
            _ => 0,
        };
        let xp: u64 = match activity_type {
            1 => 20,
            2 => 30,
            3 => 10,
            4 => 40,
            _ => 0,
        };
        self.activity_points = self.activity_points.saturating_add(points);
        self.gain_experience(xp);
        if bonus && 1 <= activity_type && activity_type <= 4 {
            let name = match activity_type {
                1 => "Activity 1 Reward".to_string(),
                2 => "Activity 2 Reward".to_string(),
                3 => "Activity 3 Reward".to_string(),
                _ => "Activity 4 Reward".to_string(),
            };
            self.add_item(Item { name, value: xp / 2 });
        }
    }

    /// Pays this player `reward` for mining.
    pub fn receive_mining_reward(&mut self, reward: u64, gem: bool)
        requires
            old(self)@.wf(),
        ensures
            final(self)@ == old(self)@.after_mining(reward, gem),
            final(self)@.wf(),
            final(self)@.id == old(self)@.id,
    {
        self.solutio_balance = self.solutio_balance.saturating_add(reward);
        self.gain_experience(reward.saturating_add(reward));
        if gem {
            self.add_item(Item { name: "Mining Gem".to_string(), value: 10 });
        }
    }

    /// Applies a won battle to this player.
    pub fn win_battle(&mut self, trophy: bool)
        requires
            old(self)@.wf(),
        ensures
            final(self)@ == old(self)@.after_victory(trophy),
            final(self)@.wf(),
            final(self)@.id == old(self)@.id,
    {
        self.gain_experience(30);
        self.activity_points = self.activity_points.saturating_add(15);
        if trophy {
            self.add_item(Item { name: "Battle Trophy".to_string(), value: 20 });
        }
    }
}

/// A runtime that differs from `before` in the player at position `i`
/// alone, who stays well formed and keeps the id, is `before` with that
/// player replaced.
pub proof fn lemma_player_changed(before: &GameFiRuntime, after: &GameFiRuntime, i: int)
    requires
        before.wf(),
        0 <= i < before.players.keys@.len(),
        after.players.keys@ == before.players.keys@,
        after.players.values@.len() == before.players.values@.len(),
        forall|j: int|
            0 <= j < before.players.values@.len() && j != i ==> after.players.values@[j]
                == before.players.values@[j],
        after.players.values@[i]@.wf(),
        after.players.values@[i]@.id == before.players.values@[i]@.id,
        after.pool_balance == before.pool_balance,
        after.mining_pool == before.mining_pool,
    ensures
        after.wf(),
        after@ == before@.set_player(before.players.keys@[i]@, after.players.values@[i]@),
{
    Table::lemma_value_set(&before.players, &after.players, i);
    before.players.lemma_entry(i);
    assert(before@.players.contains(before.players.keys@[i]@));
    lemma_set_player_wf(before@, before.players.keys@[i]@, after.players.values@[i]@);
}

/// The player runtime.
#[derive(Debug)]
pub struct GameFiRuntime {
    pub players: Table<Player>,
    pub pool_balance: u64,
    pub mining_pool: Table<u64>,
    /// The generator that every draw is taken from.
    pub dice: StdRng,
}

impl View for GameFiRuntime {
    type V = RuntimeView;

    open spec fn view(&self) -> RuntimeView {
        RuntimeView {
            players: self.players@,
            pool_balance: self.pool_balance,
            mining_pool: self.mining_pool@,
        }
    }
}

impl GameFiRuntime {
    /// The tables are well formed, and so is what they hold.
    pub open spec fn wf(&self) -> bool {
        &&& self.players.wf()
        &&& self.mining_pool.wf()
        &&& self@.wf()
    }

    /// Makes an empty runtime whose draws come from fresh entropy.
    pub fn new() -> (runtime: GameFiRuntime)
        ensures
            runtime.wf(),
            runtime@ == RuntimeView::initial(),
    {
        let dice = match entropy_generator() {
            Some(generator) => generator,
            None => seeded_generator(0),
        };
        Self::with_dice(dice)
    }

    /// Makes an empty runtime that draws from the generator seeded with
    /// `seed`.
    pub fn with_seed(seed: u64) -> (runtime: GameFiRuntime)
        ensures
            runtime.wf(),
            runtime@ == RuntimeView::initial(),
            runtime.dice == seeded_rng(seed),
    {
        Self::with_dice(seeded_generator(seed))
    }

    /// Makes an empty runtime that draws from `dice`.
    fn with_dice(dice: StdRng) -> (runtime: GameFiRuntime)
        ensures
            runtime.wf(),
            runtime@ == RuntimeView::initial(),
            runtime.dice == dice,
    {
        GameFiRuntime {
            players: Table::new(),
            pool_balance: 1_000_000,
            mining_pool: Table::new(),
            dice,
        }
    }

    /// The spendable balance of a player, if the player is known.
    pub fn get_mtoshi_balance(&self, player_id: &str) -> (balance: Option<u64>)
        requires
            self.wf(),
        ensures
            balance == self@.mtoshi_balance(player_id@),
    {
        match self.players.get(player_id) {
            Some(player) => Some(player.mtoshi_balance),
            None => None,
        }
    }

    /// Registers `player_id` as a fresh player unless it is known, and
    /// returns the player's position.
    pub fn ensure_player(&mut self, player_id: &str) -> (index: usize)
        requires
            old(self).wf(),
        ensures
            final(self).wf(),
            final(self)@ == old(self)@.with_player(player_id@),
            index < final(self).players.keys@.len(),
            final(self).players.keys@[index as int]@ == player_id@,
    {
        match self.players.position(player_id) {
            Some(index) => index,
            None => {
                let ghost before = self@;
                let player = Player::new(player_id.to_owned());
                let index = self.players.insert(player_id.to_owned(), player);
                proof {
                    lemma_set_player_wf(before, player_id@, PlayerView::fresh(player_id@));
                }
                index
            },
        }
    }

    /// Whether this runtime holds what `other` holds; the generators may
    /// differ.
    pub open spec fn same_state(&self, other: &GameFiRuntime) -> bool {
        &&& self.players == other.players
        &&& self.pool_balance == other.pool_balance
        &&& self.mining_pool == other.mining_pool
    }

    /// Draws whether an activity of the given type drops its item.
    pub fn draw_item_chance(&mut self, activity_type: u32) -> (bonus: bool)
        ensures
            final(self).same_state(old(self)),
            activity_item_chance(activity_type) == 0 ==> !bonus,
    {
        let tenths: u32 = match activity_type {
            1 => 2,
            2 => 3,
            3 => 1,
            4 => 4,
            _ => 0,
        };
        draw_chance(&mut self.dice, tenths, 10)
    }

    /// Draws the two rolls of a battle, each below ten, and whether the
    /// winner finds a trophy.
    pub fn draw_battle(&mut self) -> (draws: (u32, u32, bool))
        ensures
            final(self).same_state(old(self)),
            draws.0 < 10,
            draws.1 < 10,
    {
        let roll1 = draw_below(&mut self.dice, 10);
        let roll2 = draw_below(&mut self.dice, 10);
        let trophy = draw_chance(&mut self.dice, 1, 2);
        (roll1, roll2, trophy)
    }

    /// Draws, for each contributor of the mining pool and for one more,
    /// whether the reward comes with a gem.
    pub fn draw_gems(&mut self) -> (gems: Vec<bool>)
        ensures
            final(self).same_state(old(self)),
            gems@.len() == old(self).mining_pool.keys@.len() + 1,
    {
        let mut gems: Vec<bool> = Vec::new();
        let contributors = self.mining_pool.keys.len();
        let mut i: usize = 0;
        while i < contributors
            invariant
                self.same_state(old(self)),
                i <= contributors,
                gems@.len() == i,
            decreases contributors - i,
        {
            let gem = draw_chance(&mut self.dice, 3, 10);
            gems.push(gem);
            i += 1;
        }
        let gem = draw_chance(&mut self.dice, 3, 10);
        gems.push(gem);
        gems
    }

    /// Draws, for each player, a pick below four and whether the activity
    /// that the pick stands for drops its item.
    pub fn draw_picks(&mut self) -> (picks: Vec<(u32, bool)>)
        ensures
            final(self).same_state(old(self)),
            picks@.len() == old(self).players.keys@.len(),
            forall|j: int| 0 <= j < picks@.len() ==> (#[trigger] picks@[j]).0 < 4,
    {
        let count = self.players.keys.len();
        let mut picks: Vec<(u32, bool)> = Vec::new();
        let mut i: usize = 0;
        while i < count
            invariant
                self.same_state(old(self)),
                i <= count,
                picks@.len() == i,
                forall|j: int| 0 <= j < picks@.len() ==> (#[trigger] picks@[j]).0 < 4,
            decreases count - i,
        {
            let pick = draw_below(&mut self.dice, 4);
            let bonus = self.draw_item_chance(pick + 1);
            picks.push((pick, bonus));
            i += 1;
        }
        picks
    }

    /// Records an activity of the given type for a known player: points,
    /// experience and, where `bonus` holds and the type can drop one, an item.
    /// Unknown players and unknown types change nothing.
    pub fn record_activity_with(&mut self, player_id: &str, activity_type: u32, bonus: bool)
        requires
            old(self).wf(),
        ensures
            final(self).wf(),
            final(self)@ == old(self)@.record_activity(player_id@, activity_type, bonus),
    {
        match self.players.position(player_id) {
            None => {},
            Some(i) => {
                let ghost before = *self;
                proof {
                    before.players.lemma_entry(i as int);
                }
                self.players.values[i].perform_activity(activity_type, bonus);
                proof {
                    lemma_player_changed(&before, self, i as int);
                }
            },
        }
    }

    /// Records an activity of the given type for a known player, drawing
    /// the item chance of that type from the runtime's generator.
    pub fn record_activity(&mut self, player_id: &str, activity_type: u32)
        requires
            old(self).wf(),
        ensures
            final(self).wf(),
            exists|bonus: bool|
                final(self)@ == #[trigger] old(self)@.record_activity(
                    player_id@,
                    activity_type,
                    bonus,
                ),
    {
        let bonus = self.draw_item_chance(activity_type);
        self.record_activity_with(player_id, activity_type, bonus);
    }

    /// Fights a battle with the given rolls and returns whether the
    /// first-listed player won. Unknown players are registered first; the
    /// winner gains thirty experience, fifteen activity points and, where
    /// `trophy` holds, a trophy.
    pub fn battle_with(
        &mut self,
        player1_id: &str,
        player2_id: &str,
        roll1: u32,
        roll2: u32,
        trophy: bool,
    ) -> (first_won: bool)
        requires
            old(self).wf(),
        ensures
            final(self).wf(),
            first_won == old(self)@.battle_first_wins(player1_id@, player2_id@, roll1, roll2),
            final(self)@ == old(self)@.battle(player1_id@, player2_id@, roll1, roll2, trophy),
    {
        self.ensure_player(player1_id);
        let i2 = self.ensure_player(player2_id);
        let i1 = self.players.position(player1_id).unwrap();
        let ghost ready = *self;
        proof {
            ready.players.lemma_entry(i1 as int);
            ready.players.lemma_entry(i2 as int);
        }
        let total1: u64 = self.players.values[i1].strength as u64 + roll1 as u64;
        let total2: u64 = self.players.values[i2].strength as u64 + roll2 as u64;
        let first_won = total1 >= total2;
        let winner = if first_won {
            i1
        } else {
            i2
        };
        self.players.values[winner].win_battle(trophy);
        proof {
            lemma_player_changed(&ready, self, winner as int);
        }
        first_won
    }

    /// Fights a battle whose rolls and trophy chance are drawn from the
    /// runtime's generator: each roll is a die below ten.
    pub fn battle(&mut self, player1_id: &str, player2_id: &str) -> (first_won: bool)
        requires
            old(self).wf(),
        ensures
            final(self).wf(),
            exists|roll1: u32, roll2: u32, trophy: bool|
                roll1 < 10 && roll2 < 10 && first_won == old(self)@.battle_first_wins(
                    player1_id@,
                    player2_id@,
                    roll1,
                    roll2,
                ) && final(self)@ == #[trigger] old(self)@.battle(
                    player1_id@,
                    player2_id@,
                    roll1,
                    roll2,
                    trophy,
                ),
    {
        let (roll1, roll2, trophy) = self.draw_battle();
        self.battle_with(player1_id, player2_id, roll1, roll2, trophy)
    }

    /// Trades the item at `player1_item_index` of the first player for the
    /// item at `player2_item_index` of the second. Where either player is
    /// unknown or either position lies outside its inventory, nothing
    /// changes and the trade fails; otherwise the items change places and
    /// each side records an activity of type three, with the given item
    /// draws.
    pub fn trade_items_with(
        &mut self,
        player1_id: &str,
        player1_item_index: usize,
        player2_id: &str,
        player2_item_index: usize,
        bonus1: bool,
        bonus2: bool,
    ) -> (success: bool)
        requires
            old(self).wf(),
        ensures
            final(self).wf(),
            success == old(self)@.can_trade(
                player1_id@,
                player1_item_index as int,
                player2_id@,
                player2_item_index as int,
            ),
            final(self)@ == old(self)@.trade_items(
                player1_id@,
                player1_item_index as int,
                player2_id@,
                player2_item_index as int,
                bonus1,
                bonus2,
            ),
    {
        let i1 = match self.players.position(player1_id) {
            Some(i) => i,
            None => {
                return false;
            },
        };
        let i2 = match self.players.position(player2_id) {
            Some(i) => i,
            None => {
                return false;
            },
        };
        if player1_item_index >= self.players.values[i1].inventory.len() || player2_item_index
            >= self.players.values[i2].inventory.len() {
            return false;
        }
        let ghost start = *self;
        proof {
            start.players.lemma_entry(i1 as int);
            start.players.lemma_entry(i2 as int);
        }
        let item1 = Self::copy_item(&self.players.values[i1].inventory[player1_item_index]);
        let item2 = Self::copy_item(&self.players.values[i2].inventory[player2_item_index]);
        self.players.values[i1].inventory[player1_item_index] = item2;
        proof {
            lemma_item_views_update(
                start.players.values@[i1 as int].inventory@,
                player1_item_index as int,
                item2,
            );
            lemma_player_changed(&start, self, i1 as int);
        }
        let ghost given = *self;
        proof {
            given.players.lemma_entry(i2 as int);
        }
        self.players.values[i2].inventory[player2_item_index] = item1;
        proof {
            lemma_item_views_update(
                given.players.values@[i2 as int].inventory@,
                player2_item_index as int,
                item1,
            );
            lemma_player_changed(&given, self, i2 as int);
        }
        self.record_activity_with(player1_id, 3, bonus1);
        self.record_activity_with(player2_id, 3, bonus2);
        true
    }

    /// Trades two items, drawing each side's item chance from the runtime's
    /// generator.
    pub fn trade_items(
        &mut self,
        player1_id: &str,
        player1_item_index: usize,
        player2_id: &str,
        player2_item_index: usize,
    ) -> (success: bool)
        requires
            old(self).wf(),
        ensures
            final(self).wf(),
            success == old(self)@.can_trade(
                player1_id@,
                player1_item_index as int,
                player2_id@,
                player2_item_index as int,
            ),
            exists|bonus1: bool, bonus2: bool|
                final(self)@ == #[trigger] old(self)@.trade_items(
                    player1_id@,
                    player1_item_index as int,
                    player2_id@,
                    player2_item_index as int,
                    bonus1,
                    bonus2,
                ),
    {
        let bonus1 = self.draw_item_chance(3);
        let bonus2 = self.draw_item_chance(3);
        self.trade_items_with(
            player1_id,
            player1_item_index,
            player2_id,
            player2_item_index,
            bonus1,
            bonus2,
        )
    }

    fn copy_item(item: &Item) -> (copy: Item)
        ensures
            copy == *item,
    {
        Item { name: item.name.clone(), value: item.value }
    }

    /// Adds up the activity points of all players.
    pub fn total_activity(&self) -> (total: u128)
        requires
            self.wf(),
        ensures
            total == self@.total_activity(),
            forall|i: int|
                0 <= i < self.players.values@.len() ==> self.players.values@[i].activity_points
                    <= total,
    {
        let ghost points = point_list(self.players@);
        proof {
            assert forall|i: int| 0 <= i < self.players.values@.len() implies points[i]
                == self.players.values@[i].activity_points by {
                self.players.lemma_entry(i);
            }
        }
        let mut total: u128 = 0;
        let mut i: usize = 0;
        while i < self.players.values.len()
            invariant
                self.wf(),
                i <= self.players.values@.len(),
                points.len() == self.players.values@.len(),
                forall|j: int|
                    0 <= j < self.players.values@.len() ==> points[j]
                        == self.players.values@[j].activity_points,
                total == sum_of(points.take(i as int)),
                total <= i * u64::MAX,
            decreases self.players.values@.len() - i,
        {
            proof {
                assert(points.take(i + 1).drop_last() =~= points.take(i as int));
                assert((i + 1) * u64::MAX == i * u64::MAX + u64::MAX) by (nonlinear_arith);
                assert(i * u64::MAX <= usize::MAX * u64::MAX) by (nonlinear_arith)
                    requires
                        i <= usize::MAX,
                ;
            }
            total = total + self.players.values[i].activity_points as u128;
            i += 1;
        }
        proof {
            assert(points.take(i as int) =~= points);
            assert forall|j: int|
                0 <= j < self.players.values@.len() implies self.players.values@[j].activity_points
                <= total by {
                lemma_sum_of_bounds(points, j);
            }
        }
        total
    }

    /// Shares the activity reward out among all players in proportion to
    /// their activity points, which are spent, and takes the reward from the
    /// pool. Nothing changes where nobody has points or the pool cannot pay.
    pub fn distribute_mtoshi_rewards(&mut self)
        requires
            old(self).wf(),
        ensures
            final(self).wf(),
            final(self)@ == old(self)@.distribute_mtoshi_rewards(),
    {
        let total = self.total_activity();
        if total == 0 || ACTIVITY_POOL_REWARD > self.pool_balance {
            return ;
        }
        let ghost start = *self;
        let ghost pay = |p: PlayerView| p.rewarded(total as nat);
        let mut i: usize = 0;
        while i < self.players.values.len()
            invariant
                start.wf(),
                total > 0,
                i <= self.players.values@.len(),
                self.players.keys@ == start.players.keys@,
                self.players.values@.len() == start.players.values@.len(),
                self.pool_balance == start.pool_balance,
                self.mining_pool == start.mining_pool,
                forall|j: int|
                    0 <= j < i ==> self.players.values@[j]@ == start.players.values@[j]@.rewarded(
                        total as nat,
                    ),
                forall|j: int|
                    i <= j < self.players.values@.len() ==> self.players.values@[j]
                        == start.players.values@[j],
            decreases self.players.values@.len() - i,
        {
            let points: u64 = self.players.values[i].activity_points;
            let share = share_of(points, ACTIVITY_POOL_REWARD, total);
            let balance: u64 = self.players.values[i].mtoshi_balance;
            self.players.values[i].mtoshi_balance = balance.saturating_add(share);
            self.players.values[i].activity_points = 0;
            i += 1;
        }
        self.pool_balance -= ACTIVITY_POOL_REWARD;
        proof {
            assert forall|j: int|
                0 <= j < start.players.values@.len() implies self.players.values@[j]@ == pay(
                start.players.values@[j]@,
            ) by {}
            Table::lemma_values_mapped(&start.players, &self.players, pay);
            assert forall|id: Seq<char>| #[trigger]
                self@.players.contains(id) implies self@.players.get(id).wf()
                && self@.players.get(id).id == id by {
                assert(start@.players.contains(id));
            }
        }
    }

    /// Attempts to mine a block with the given draws. The attempt succeeds
    /// for one computed hash in ten; it then credits the miner's
    /// contribution with the block reward, pays every contributor who is a
    /// player in proportion to its cumulative contribution, and returns the
    /// block that records the payments. The gem draw at position `i` belongs
    /// to the contributor at position `i` of the pool.
    pub fn mine_block_with(
        &mut self,
        previous_hash: &str,
        miner: String,
        index: u64,
        nonce: u64,
        computed_hash: u64,
        timestamp: u64,
        gems: &Vec<bool>,
    ) -> (block: Option<Block>)
        requires
            old(self).wf(),
        ensures
            final(self).wf(),
            (final(self)@, block_view(block)) == old(self)@.mining_outcome(
                previous_hash@,
                miner@,
                index,
                nonce,
                computed_hash,
                timestamp,
                gems@,
            ),
    {
        if computed_hash % 1000 >= 100 {
            return None;
        }
        let ghost start = *self;
        self.mining_pool.credit(miner.as_str(), BLOCK_REWARD);
        let total = self.mining_pool.total();
        let ghost pool = self.mining_pool;
        let mut transactions: Vec<Transaction> = Vec::new();
        let mut k: usize = 0;
        proof {
            pool.lemma_view_wf();
            assert(transaction_views(transactions@) =~= Seq::<TransactionView>::empty());
        }
        while k < self.mining_pool.keys.len()
            invariant
                self.wf(),
                self.mining_pool == pool,
                self.pool_balance == start.pool_balance,
                k <= pool.keys@.len(),
                total == sum_of(pool@.values()),
                self.players@ == pay_miners(start.players@, pool@, total as nat, gems@, k as nat),
                forall|id: Seq<char>|
                    self.players@.contains(id) == start.players@.contains(id),
                transaction_views(transactions@) == mining_transactions(
                    start.players@,
                    pool@,
                    total as nat,
                    k as nat,
                ),
            decreases pool.keys@.len() - k,
        {
            proof {
                pool.lemma_entry(k as int);
            }
            let contribution: u64 = self.mining_pool.values[k];
            let reward = share_of(contribution, BLOCK_REWARD, total);
            match self.players.position(self.mining_pool.keys[k].as_str()) {
                Some(j) => {
                    let ghost before = *self;
                    let ghost earlier = transactions@;
                    proof {
                        before.players.lemma_entry(j as int);
                    }
                    let gem = k < gems.len() && gems[k];
                    self.players.values[j].receive_mining_reward(reward, gem);
                    let transfer = Transaction {
                        sender: "system".to_string(),
                        receiver: self.mining_pool.keys[k].clone(),
                        amount: reward as u128,
                        token: "Solutio".to_string(),
                    };
                    transactions.push(transfer);
                    proof {
                        lemma_player_changed(&before, self, j as int);
                        assert(transaction_views(transactions@) =~= transaction_views(
                            earlier,
                        ).push(transfer@));
                        assert forall|id: Seq<char>|
                            self.players@.contains(id) == start.players@.contains(id) by {
                            assert(before.players@.contains(id) == start.players@.contains(id));
                        }
                    }
                },
                None => {},
            }
            k += 1;
        }
        let block = Block {
            index,
            timestamp,
            transactions,
            previous_hash: previous_hash.to_owned(),
            hash: hex_string(computed_hash),
            nonce,
        };
        proof {
            pool.lemma_view_wf();
        }
        Some(block)
    }

    /// Attempts to mine a block, drawing the nonce, the computed hash and
    /// the gem chances from the runtime's generator and reading the
    /// timestamp from the clock.
    pub fn mine_block(&mut self, previous_hash: &str, miner: String, index: u64) -> (block: Option<
        Block,
    >)
        requires
            old(self).wf(),
        ensures
            final(self).wf(),
            exists|nonce: u64, computed_hash: u64, timestamp: u64, gems: Seq<bool>|
                (final(self)@, block_view(block)) == #[trigger] old(self)@.mining_outcome(
                    previous_hash@,
                    miner@,
                    index,
                    nonce,
                    computed_hash,
                    timestamp,
                    gems,
                ),
    {
        let nonce = draw_u64(&mut self.dice);
        let computed_hash = draw_u64(&mut self.dice);
        let timestamp = unix_seconds();
        let gems = if computed_hash % 1000 < 100 {
            self.draw_gems()
        } else {
            Vec::new()
        };
        self.mine_block_with(previous_hash, miner, index, nonce, computed_hash, timestamp, &gems)
    }

    /// Lets every player, in order, perform the activity picked for it:
    /// pick `k` below four stands for activity type `k + 1` and comes with
    /// its item draw; any other pick, or none, stands for no activity.
    pub fn simulate_player_activity_with(&mut self, picks: &Vec<(u32, bool)>)
        requires
            old(self).wf(),
        ensures
            final(self).wf(),
            final(self)@ == old(self)@.simulate_player_activity(picks@),
    {
        let ghost start = *self;
        let mut k: usize = 0;
        proof {
            start.players.lemma_view_wf();
        }
        while k < self.players.values.len()
            invariant
                start.wf(),
                self.wf(),
                k <= self.players.values@.len(),
                self.players.keys@ == start.players.keys@,
                self.players.values@.len() == start.players.values@.len(),
                self@ == start@.simulate_upto(picks@, k as nat),
            decreases self.players.values@.len() - k,
        {
            proof {
                start.players.lemma_entry(k as int);
            }
            if k < picks.len() && picks[k].0 < 4 {
                let ghost before = *self;
                proof {
                    before.players.lemma_entry(k as int);
                    assert(before@.players.contains(before.players.keys@[k as int]@));
                }
                let activity_type: u32 = picks[k].0 + 1;
                let bonus = picks[k].1;
                self.players.values[k].perform_activity(activity_type, bonus);
                proof {
                    lemma_player_changed(&before, self, k as int);
                }
            }
            k += 1;
        }
    }

    /// Lets every player perform an activity picked at random, drawing each
    /// pick and its item chance from the runtime's generator.
    pub fn simulate_player_activity(&mut self)
        requires
            old(self).wf(),
        ensures
            final(self).wf(),
            exists|picks: Seq<(u32, bool)>|
                picks.len() == old(self)@.players.len() && (forall|i: int|
                    0 <= i < picks.len() ==> (#[trigger] picks[i]).0 < 4) && final(self)@
                    == #[trigger] old(self)@.simulate_player_activity(picks),
    {
        let picks = self.draw_picks();
        proof {
            old(self).players.lemma_view_wf();
        }
        self.simulate_player_activity_with(&picks);
    }

    /// Whether `player_id` names a player who holds at least `cost` of the
    /// spendable currency.
    pub fn can_pay(&self, player_id: &str, cost: u64) -> (covered: bool)
        requires
            self.wf(),
        ensures
            covered == self@.can_pay(player_id@, cost),
    {
        match self.players.get(player_id) {
            Some(player) => player.mtoshi_balance >= cost,
            None => false,
        }
    }

    /// Takes `amount` of the spendable currency from a player who holds it.
    pub fn debit(&mut self, player_id: &str, amount: u64)
        requires
            old(self).wf(),
            old(self)@.can_pay(player_id@, amount),
        ensures
            final(self).wf(),
            final(self)@ == old(self)@.debit(player_id@, amount),
    {
        let i = self.players.position(player_id).unwrap();
        let ghost before = *self;
        proof {
            before.players.lemma_entry(i as int);
        }
        let balance: u64 = self.players.values[i].mtoshi_balance;
        self.players.values[i].mtoshi_balance = balance - amount;
        proof {
            lemma_player_changed(&before, self, i as int);
        }
    }

    /// Pays `amount` of the spendable currency to a known player; the
    /// balance is held at the largest representable amount. Nothing changes
    /// for an unknown player.
    pub fn credit(&mut self, player_id: &str, amount: u64)
        requires
            old(self).wf(),
        ensures
            final(self).wf(),
            final(self)@ == old(self)@.credit(player_id@, amount),
    {
        match self.players.position(player_id) {
            None => {},
            Some(i) => {
                let ghost before = *self;
                proof {
                    before.players.lemma_entry(i as int);
                }
                let balance: u64 = self.players.values[i].mtoshi_balance;
                self.players.values[i].mtoshi_balance = balance.saturating_add(amount);
                proof {
                    lemma_player_changed(&before, self, i as int);
                }
            },
        }
    }

    /// Appends `item` to the inventory of a known player.
    pub fn give_item(&mut self, player_id: &str, item: Item)
        requires
            old(self).wf(),
            old(self)@.players.contains(player_id@),
        ensures
            final(self).wf(),
            final(self)@ == old(self)@.give_item(player_id@, item@),
    {
        let i = self.players.position(player_id).unwrap();
        let ghost before = *self;
        proof {
            before.players.lemma_entry(i as int);
        }
        self.players.values[i].add_item(item);
        proof {
            lemma_player_changed(&before, self, i as int);
        }
    }

    /// Whether `player_id` names a player whose inventory has a position
    /// `index`.
    pub fn has_item(&self, player_id: &str, index: usize) -> (held: bool)
        requires
            self.wf(),
        ensures
            held == self@.has_item(player_id@, index as int),
    {
        match self.players.get(player_id) {
            Some(player) => index < player.inventory.len(),
            None => false,
        }
    }

    /// Takes the item at `index` out of the inventory of a player who has
    /// one there.
    pub fn take_item(&mut self, player_id: &str, index: usize) -> (item: Item)
        requires
            old(self).wf(),
            old(self)@.has_item(player_id@, index as int),
        ensures
            final(self).wf(),
            item@ == old(self)@.players.get(player_id@).inventory[index as int],
            final(self)@ == old(self)@.take_item(player_id@, index as int),
    {
        let i = self.players.position(player_id).unwrap();
        let ghost before = *self;
        proof {
            before.players.lemma_entry(i as int);
            lemma_item_views_remove(before.players.values@[i as int].inventory@, index as int);
        }
        let item = self.players.values[i].inventory.remove(index);
        proof {
            lemma_player_changed(&before, self, i as int);
        }
        item
    }

    /// The name of the item at `index` of the inventory of `player_id`, if
    /// there is such a player and such a position.
    pub fn item_name(&self, player_id: &str, index: usize) -> (name: Option<String>)
        requires
            self.wf(),
        ensures
            match name {
                Some(text) => self@.has_item(player_id@, index as int) && text@
                    == self@.players.get(player_id@).inventory[index as int].name,
                None => !self@.has_item(player_id@, index as int),
            },
    {
        match self.players.get(player_id) {
            Some(player) => {
                if index < player.inventory.len() {
                    Some(player.inventory[index].name.clone())
                } else {
                    None
                }
            },
            None => None,
        }
    }

    /// Lists every player in the order in which the players were first
    /// seen.
    pub fn leaderboard(&self) -> (rows: Vec<LeaderboardRow>)
        requires
            self.wf(),
        ensures
            leaderboard_views(rows@) == self@.leaderboard(),
    {
        let mut rows: Vec<LeaderboardRow> = Vec::new();
        let mut i: usize = 0;
        while i < self.players.keys.len()
            invariant
                self.wf(),
                i <= self.players.keys@.len(),
                rows@.len() == i,
                forall|j: int|
                    0 <= j < i ==> (#[trigger] leaderboard_views(rows@)[j])
                        == self@.leaderboard()[j],
            decreases self.players.keys@.len() - i,
        {
            proof {
                self.players.lemma_entry(i as int);
            }
            let ghost earlier = rows@;
            let player = &self.players.values[i];
            let row: LeaderboardRow = (
                self.players.keys[i].clone(),
                player.level,
                player.experience,
                player.solutio_balance,
                player.mtoshi_balance,
            );
            rows.push(row);
            proof {
                assert forall|j: int|
                    0 <= j < i + 1 implies (#[trigger] leaderboard_views(rows@)[j])
                    == self@.leaderboard()[j] by {
                    if j < i {
                        assert(leaderboard_views(earlier)[j] == self@.leaderboard()[j]);
                    }
                }
            }
            i += 1;
        }
        proof {
            assert(leaderboard_views(rows@) =~= self@.leaderboard());
        }
        rows
    }

    /// Checks that the runtime is well formed: that no id is filed twice,
    /// and that every player is well formed and filed under its own id.
    pub fn is_well_formed(&self) -> (ok: bool)
        ensures
            ok == self.wf(),
    {
        if !self.players.is_well_formed() || !self.mining_pool.is_well_formed() {
            return false;
        }
        let mut i: usize = 0;
        while i < self.players.values.len()
            invariant
                self.players.wf(),
                self.mining_pool.wf(),
                i <= self.players.values@.len(),
                forall|j: int|
                    0 <= j < i ==> (#[trigger] self.players.values@[j])@.wf()
                        && self.players.values@[j]@.id == self.players.keys@[j]@,
            decreases self.players.values@.len() - i,
        {
            if !self.players.values[i].is_well_formed() || !self.players.values[i].id.as_str().eq(
                self.players.keys[i].as_str(),
            ) {
                proof {
                    self.players.lemma_entry(i as int);
                    assert(self@.players.contains(self.players.keys@[i as int]@));
                }
                return false;
            }
            i += 1;
        }
        proof {
            assert forall|id: Seq<char>| #[trigger]
                self@.players.contains(id) implies self@.players.get(id).wf()
                && self@.players.get(id).id == id by {
                let j = self.players.lemma_position(id);
                assert(self.players.values@[j]@.wf());
            }
        }
        true
    }

    /// Ranks the players: the positions of all players, best first.
    fn ranking(&self) -> (order: Vec<usize>)
        requires
            self.wf(),
        ensures
            is_ranking(self@.leaderboard(), Seq::new(order@.len(), |k: int| order@[k] as int)),
    {
        let ghost board = self@.leaderboard();
        let count = self.players.values.len();
        proof {
            assert forall|x: int| 0 <= x < count implies (#[trigger] board[x]).1
                == self.players.values@[x].level && board[x].2
                == self.players.values@[x].experience by {
                self.players.lemma_entry(x);
            }
        }
        let mut order: Vec<usize> = Vec::new();
        let mut i: usize = 0;
        while i < count
            invariant
                self.wf(),
                count == self.players.values@.len(),
                board == self@.leaderboard(),
                board.len() == count,
                forall|x: int|
                    0 <= x < count ==> (#[trigger] board[x]).1 == self.players.values@[x].level
                        && board[x].2 == self.players.values@[x].experience,
                i <= count,
                order@.len() == i,
                forall|k: int| 0 <= k < order@.len() ==> (#[trigger] order@[k]) < i,
                forall|x: int| 0 <= x < i ==> #[trigger] order@.contains(x as usize),
                forall|a: int, b: int|
                    0 <= a < b < order@.len() ==> ranks_before(
                        board,
                        (#[trigger] order@[a]) as int,
                        (#[trigger] order@[b]) as int,
                    ),
            decreases count - i,
        {
            let level = self.players.values[i].level;
            let experience = self.players.values[i].experience;
            let mut at: usize = 0;
            while at < order.len() && !(level > self.players.values[order[at]].level || (level
                == self.players.values[order[at]].level && experience
                > self.players.values[order[at]].experience))
                invariant
                    self.wf(),
                    count == self.players.values@.len(),
                    i < count,
                    level == self.players.values@[i as int].level,
                    experience == self.players.values@[i as int].experience,
                    board.len() == count,
                    forall|x: int|
                        0 <= x < count ==> (#[trigger] board[x]).1
                            == self.players.values@[x].level && board[x].2
                            == self.players.values@[x].experience,
                    at <= order@.len(),
                    forall|k: int| 0 <= k < order@.len() ==> (#[trigger] order@[k]) < i,
                    forall|k: int|
                        0 <= k < at ==> ranks_before(
                            board,
                            (#[trigger] order@[k]) as int,
                            i as int,
                        ),
                decreases order@.len() - at,
            {
                at += 1;
            }
            let ghost earlier = order@;
            order.insert(at, i);
            proof {
                assert forall|x: int| 0 <= x < i + 1 implies #[trigger] order@.contains(
                    x as usize,
                ) by {
                    if x < i {
                        assert(earlier.contains(x as usize));
                        let k = choose|k: int| 0 <= k < earlier.len() && earlier[k] == x as usize;
                        if k < at {
                            assert(order@[k] == x as usize);
                        } else {
                            assert(order@[k + 1] == x as usize);
                        }
                    } else {
                        assert(order@[at as int] == i);
                    }
                }
                assert forall|a: int, b: int| 0 <= a < b < order@.len() implies ranks_before(
                    board,
                    (#[trigger] order@[a]) as int,
                    (#[trigger] order@[b]) as int,
                ) by {
                    if b < at {
                        assert(order@[a] == earlier[a] && order@[b] == earlier[b]);
                    } else if b == at {
                        assert(order@[a] == earlier[a]);
                    } else if a < at {
                        assert(order@[a] == earlier[a] && order@[b] == earlier[b - 1]);
                    } else if a == at {
                        assert(order@[b] == earlier[b - 1]);
                        if b - 1 > at {
                            assert(ranks_before(
                                board,
                                earlier[at as int] as int,
                                earlier[b - 1] as int,
                            ));
                        }
                    } else {
                        assert(order@[a] == earlier[a - 1] && order@[b] == earlier[b - 1]);
                    }
                }
            }
            i += 1;
        }
        proof {
            let listed = Seq::new(order@.len(), |k: int| order@[k] as int);
            assert forall|x: int| 0 <= x < board.len() implies #[trigger] listed.contains(x) by {
                assert(order@.contains(x as usize));
                let k = choose|k: int| 0 <= k < order@.len() && order@[k] == x as usize;
                assert(listed[k] == x);
            }
        }
        order
    }

    /// Lists every player, best first: by higher level, then by more
    /// experience, then by having been seen first.
    pub fn show_leaderboard(&self) -> (rows: Vec<LeaderboardRow>)
        requires
            self.wf(),
        ensures
            exists|order: Seq<int>| #[trigger]
                is_ranking(self@.leaderboard(), order) && leaderboard_views(rows@) == ranked(
                    self@.leaderboard(),
                    order,
                ),
    {
        let order = self.ranking();
        let ghost board = self@.leaderboard();
        let ghost listed = Seq::new(order@.len(), |k: int| order@[k] as int);
        let mut rows: Vec<LeaderboardRow> = Vec::new();
        let mut k: usize = 0;
        while k < order.len()
            invariant
                self.wf(),
                board == self@.leaderboard(),
                listed == Seq::new(order@.len(), |k: int| order@[k] as int),
                is_ranking(board, listed),
                k <= order@.len(),
                rows@.len() == k,
                forall|j: int|
                    0 <= j < k ==> (#[trigger] leaderboard_views(rows@)[j]) == board[listed[j]],
            decreases order@.len() - k,
        {
            let at = order[k];
            proof {
                assert(0 <= listed[k as int] < board.len());
                self.players.lemma_entry(at as int);
            }
            let ghost earlier = rows@;
            let player = &self.players.values[at];
            let row: LeaderboardRow = (
                self.players.keys[at].clone(),
                player.level,
                player.experience,
                player.solutio_balance,
                player.mtoshi_balance,
            );
            rows.push(row);
            proof {
                assert forall|j: int|
                    0 <= j < k + 1 implies (#[trigger] leaderboard_views(rows@)[j])
                    == board[listed[j]] by {
                    if j < k {
                        assert(leaderboard_views(earlier)[j] == board[listed[j]]);
                    }
                }
            }
            k += 1;
        }
        proof {
            assert(leaderboard_views(rows@) =~= ranked(board, listed));
        }
        rows
    }
}

} // verus!
