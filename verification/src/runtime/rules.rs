//! The rules of the player runtime, stated over mathematical values.

use super::catena_node::{Block, BlockView, TransactionView};
use crate::economy::{proportional_share, sat_add, ACTIVITY_POOL_REWARD, BLOCK_REWARD};
use crate::player::{item_views, Item, ItemView, PlayerView};
use crate::table::{sum_of, TableView};
use crate::text::digits;
use vstd::prelude::*;

verus! {

/// Activity points granted by an activity of the given type; unknown types
/// grant nothing.
pub open spec fn activity_points(activity_type: u32) -> u64 {
    if activity_type == 1 {
        10
    } else if activity_type == 2 {
        15
    } else if activity_type == 3 {
        5
    } else if activity_type == 4 {
        20
    } else {
        0
    }
}

/// Experience granted by an activity of the given type.
pub open spec fn activity_xp(activity_type: u32) -> u64 {
    if activity_type == 1 {
        20
    } else if activity_type == 2 {
        30
    } else if activity_type == 3 {
        10
    } else if activity_type == 4 {
        40
    } else {
        0
    }
}

/// The chance, in tenths, that an activity of the given type drops an item.
pub open spec fn activity_item_chance(activity_type: u32) -> u32 {
    if activity_type == 1 {
        2
    } else if activity_type == 2 {
        3
    } else if activity_type == 3 {
        1
    } else if activity_type == 4 {
        4
    } else {
        0
    }
}

/// The name of the item that an activity of the given type drops.
pub open spec fn activity_item_name(activity_type: u32) -> Seq<char> {
    if activity_type == 1 {
        "Activity 1 Reward"@
    } else if activity_type == 2 {
        "Activity 2 Reward"@
    } else if activity_type == 3 {
        "Activity 3 Reward"@
    } else {
        "Activity 4 Reward"@
    }
}

/// The item that an activity of the given type drops: worth half the
/// experience granted.
pub open spec fn activity_item(activity_type: u32) -> ItemView {
    ItemView { name: activity_item_name(activity_type), value: activity_xp(activity_type) / 2 }
}

/// The trophy that a battle may leave to its winner.
pub open spec fn battle_trophy() -> ItemView {
    ItemView { name: "Battle Trophy"@, value: 20 }
}

/// The gem that mining may leave to a rewarded player.
pub open spec fn mining_gem() -> ItemView {
    ItemView { name: "Mining Gem"@, value: 10 }
}

/// Whether the first combatant wins: each rolls strength plus a die, and a
/// tie goes to the first.
pub open spec fn first_wins(first: PlayerView, second: PlayerView, roll1: u32, roll2: u32) -> bool {
    first.strength + roll1 >= second.strength + roll2
}

/// The share of the activity reward owed for `points` out of `total`.
pub open spec fn activity_share(points: u64, total: nat) -> u64 {
    proportional_share(points, ACTIVITY_POOL_REWARD, total)
}

/// The share of a block's reward owed for `contribution` out of `total`.
pub open spec fn miner_reward(contribution: u64, total: nat) -> u64 {
    proportional_share(contribution, BLOCK_REWARD, total)
}

/// Whether a block with the given computed hash counts as mined: one hash
/// in ten does.
pub open spec fn mining_succeeds(computed_hash: u64) -> bool {
    computed_hash % 1000 < 100
}

/// The draw at position `i` of a list of draws; a missing draw counts as
/// one that did not come out.
pub open spec fn draw_at(draws: Seq<bool>, i: int) -> bool {
    0 <= i < draws.len() && draws[i]
}

/// The activity points of the players, in order.
pub open spec fn point_list(players: TableView<PlayerView>) -> Seq<u64> {
    Seq::new(players.order.len(), |i: int| players.map[players.order[i]].activity_points)
}

/// The players after the first `n` contributors of the mining pool have
/// been paid their share of a block's reward. A contributor who is no
/// player is passed over.
pub open spec fn pay_miners(
    players: TableView<PlayerView>,
    pool: TableView<u64>,
    total: nat,
    gems: Seq<bool>,
    n: nat,
) -> TableView<PlayerView>
    decreases n,
{
    if n == 0 {
        players
    } else {
        let earlier = pay_miners(players, pool, total, gems, (n - 1) as nat);
        let id = pool.order[n - 1];
        if earlier.contains(id) {
            earlier.insert(
                id,
                earlier.get(id).after_mining(
                    miner_reward(pool.get(id), total),
                    draw_at(gems, n - 1),
                ),
            )
        } else {
            earlier
        }
    }
}

/// The transfers that record the payment of the first `n` contributors.
pub open spec fn mining_transactions(
    players: TableView<PlayerView>,
    pool: TableView<u64>,
    total: nat,
    n: nat,
) -> Seq<TransactionView>
    decreases n,
{
    if n == 0 {
        Seq::empty()
    } else {
        let earlier = mining_transactions(players, pool, total, (n - 1) as nat);
        let id = pool.order[n - 1];
        if players.contains(id) {
            earlier.push(
                TransactionView {
                    sender: "system"@,
                    receiver: id,
                    amount: miner_reward(pool.get(id), total) as u128,
                    token: "Solutio"@,
                },
            )
        } else {
            earlier
        }
    }
}

/// Whether line `a` of a leaderboard ranks before line `b`: by higher
/// level, then by more experience, then by coming first on the board.
pub open spec fn ranks_before(board: Seq<(Seq<char>, u32, u64, u64, u64)>, a: int, b: int) -> bool {
    let x = board[a];
    let y = board[b];
    x.1 > y.1 || (x.1 == y.1 && (x.2 > y.2 || (x.2 == y.2 && a < b)))
}

/// Whether `order` lists every line of the board once, best first.
pub open spec fn is_ranking(board: Seq<(Seq<char>, u32, u64, u64, u64)>, order: Seq<int>) -> bool {
    &&& order.len() == board.len()
    &&& forall|k: int| 0 <= k < order.len() ==> 0 <= #[trigger] order[k] < board.len()
    &&& forall|x: int| 0 <= x < board.len() ==> #[trigger] order.contains(x)
    &&& forall|a: int, b: int|
        0 <= a < b < order.len() ==> ranks_before(board, #[trigger] order[a], #[trigger] order[b])
}

/// The lines of a board in the given order.
pub open spec fn ranked(board: Seq<(Seq<char>, u32, u64, u64, u64)>, order: Seq<int>) -> Seq<
    (Seq<char>, u32, u64, u64, u64),
> {
    Seq::new(order.len(), |k: int| board[order[k]])
}

/// The view of a block that may be missing.
pub open spec fn block_view(block: Option<Block>) -> Option<BlockView> {
    match block {
        Some(b) => Some(b@),
        None => None,
    }
}

/// The pick at position `i` of a list of picks; a missing pick counts as
/// no activity.
pub open spec fn pick_at(picks: Seq<(u32, bool)>, i: int) -> (u32, bool) {
    if 0 <= i < picks.len() {
        picks[i]
    } else {
        (4, false)
    }
}

impl PlayerView {
    /// The player after an activity of the given type; `bonus` says whether
    /// the item draw came out in the player's favour.
    pub open spec fn after_activity(self, activity_type: u32, bonus: bool) -> PlayerView {
        let worked = self.add_points(activity_points(activity_type)).gain_experience(
            activity_xp(activity_type),
        );
        if bonus && activity_item_chance(activity_type) > 0 {
            worked.add_item(activity_item(activity_type))
        } else {
            worked
        }
    }

    /// The player after winning a battle; `trophy` says whether the trophy
    /// draw came out in the player's favour.
    pub open spec fn after_victory(self, trophy: bool) -> PlayerView {
        let won = self.gain_experience(30).add_points(15);
        if trophy {
            won.add_item(battle_trophy())
        } else {
            won
        }
    }

    /// The player paid a share of the activity reward for its points out of
    /// `total`; the points are spent.
    pub open spec fn rewarded(self, total: nat) -> PlayerView {
        PlayerView {
            mtoshi_balance: sat_add(
                self.mtoshi_balance,
                activity_share(self.activity_points, total),
            ),
            activity_points: 0,
            ..self
        }
    }

    /// The player paid `reward` for mining: the reward in the mining
    /// currency, twice the reward in experience and, where `gem` holds, a
    /// gem.
    pub open spec fn after_mining(self, reward: u64, gem: bool) -> PlayerView {
        let paid = (PlayerView {
            solutio_balance: sat_add(self.solutio_balance, reward),
            ..self
        }).gain_experience(sat_add(reward, reward));
        if gem {
            paid.add_item(mining_gem())
        } else {
            paid
        }
    }

    /// The player without the item at `index`.
    pub open spec fn without_item(self, index: int) -> PlayerView {
        PlayerView { inventory: self.inventory.remove(index), ..self }
    }

    /// The player with the item at `index` replaced.
    pub open spec fn with_item(self, index: int, item: ItemView) -> PlayerView {
        PlayerView { inventory: self.inventory.update(index, item), ..self }
    }
}

/// The runtime as a mathematical value: the players, what is left of the
/// reward pool, and each miner's cumulative contribution.
pub struct RuntimeView {
    pub players: TableView<PlayerView>,
    pub pool_balance: u64,
    pub mining_pool: TableView<u64>,
}

impl RuntimeView {
    /// A runtime without players, with a full reward pool.
    pub open spec fn initial() -> RuntimeView {
        RuntimeView {
            players: TableView::empty(),
            pool_balance: 1_000_000,
            mining_pool: TableView::empty(),
        }
    }

    /// Both tables are well formed, and every player is well formed and
    /// filed under its own id.
    pub open spec fn wf(self) -> bool {
        &&& self.players.wf()
        &&& self.mining_pool.wf()
        &&& forall|id: Seq<char>| #[trigger]
            self.players.contains(id) ==> self.players.get(id).wf() && self.players.get(id).id
                == id
    }

    /// The runtime in which `id` names a player: a fresh one where none was
    /// known.
    pub open spec fn with_player(self, id: Seq<char>) -> RuntimeView {
        if self.players.contains(id) {
            self
        } else {
            RuntimeView { players: self.players.insert(id, PlayerView::fresh(id)), ..self }
        }
    }

    /// The runtime with the player `id` replaced by `player`.
    pub open spec fn set_player(self, id: Seq<char>, player: PlayerView) -> RuntimeView {
        RuntimeView { players: self.players.insert(id, player), ..self }
    }

    /// The spendable balance of `id`, if such a player is known.
    pub open spec fn mtoshi_balance(self, id: Seq<char>) -> Option<u64> {
        if self.players.contains(id) {
            Some(self.players.get(id).mtoshi_balance)
        } else {
            None
        }
    }

    /// The runtime after `id` performed an activity: unchanged where no such
    /// player is known.
    pub open spec fn record_activity(self, id: Seq<char>, activity_type: u32, bonus: bool)
        -> RuntimeView {
        if self.players.contains(id) {
            self.set_player(id, self.players.get(id).after_activity(activity_type, bonus))
        } else {
            self
        }
    }

    /// Whether the first-listed player wins a battle with the given rolls.
    /// Unknown players fight as fresh ones.
    pub open spec fn battle_first_wins(self, id1: Seq<char>, id2: Seq<char>, roll1: u32, roll2: u32)
        -> bool {
        let ready = self.with_player(id1).with_player(id2);
        first_wins(ready.players.get(id1), ready.players.get(id2), roll1, roll2)
    }

    /// The runtime after a battle: unknown players are registered, then the
    /// winner is rewarded.
    pub open spec fn battle(
        self,
        id1: Seq<char>,
        id2: Seq<char>,
        roll1: u32,
        roll2: u32,
        trophy: bool,
    ) -> RuntimeView {
        let ready = self.with_player(id1).with_player(id2);
        let winner = if self.battle_first_wins(id1, id2, roll1, roll2) {
            id1
        } else {
            id2
        };
        ready.set_player(winner, ready.players.get(winner).after_victory(trophy))
    }

    /// Whether `id` names a player who holds at least `cost` of the
    /// spendable currency.
    pub open spec fn can_pay(self, id: Seq<char>, cost: u64) -> bool {
        self.players.contains(id) && self.players.get(id).mtoshi_balance >= cost
    }

    /// The runtime after the player `id` has paid `amount`.
    pub open spec fn debit(self, id: Seq<char>, amount: u64) -> RuntimeView
        recommends
            self.can_pay(id, amount),
    {
        self.set_player(id, self.players.get(id).debit(amount))
    }

    /// The runtime after the player `id` has been paid `amount`: unchanged
    /// where no such player is known.
    pub open spec fn credit(self, id: Seq<char>, amount: u64) -> RuntimeView {
        if self.players.contains(id) {
            self.set_player(id, self.players.get(id).credit(amount))
        } else {
            self
        }
    }

    /// The runtime after the player `id` has been given `item`.
    pub open spec fn give_item(self, id: Seq<char>, item: ItemView) -> RuntimeView
        recommends
            self.players.contains(id),
    {
        self.set_player(id, self.players.get(id).add_item(item))
    }

    /// Whether `id` names a player whose inventory has a position `index`.
    pub open spec fn has_item(self, id: Seq<char>, index: int) -> bool {
        self.players.contains(id) && 0 <= index < self.players.get(id).inventory.len()
    }

    /// The runtime after the item at `index` has left the inventory of the
    /// player `id`; the items behind it move up.
    pub open spec fn take_item(self, id: Seq<char>, index: int) -> RuntimeView
        recommends
            self.has_item(id, index),
    {
        self.set_player(id, self.players.get(id).without_item(index))
    }

    /// The leaderboard in the order in which the players were first seen:
    /// id, level, experience, mining balance and spendable balance.
    pub open spec fn leaderboard(self) -> Seq<(Seq<char>, u32, u64, u64, u64)> {
        Seq::new(
            self.players.order.len(),
            |i: int|
                {
                    let player = self.players.map[self.players.order[i]];
                    (
                        self.players.order[i],
                        player.level,
                        player.experience,
                        player.solutio_balance,
                        player.mtoshi_balance,
                    )
                },
        )
    }

    /// The sum of all players' activity points.
    pub open spec fn total_activity(self) -> nat {
        sum_of(point_list(self.players))
    }

    /// The runtime after the activity reward has been shared out in
    /// proportion to activity points. Nothing changes where nobody has
    /// points or the pool cannot pay the reward.
    pub open spec fn distribute_mtoshi_rewards(self) -> RuntimeView {
        let total = self.total_activity();
        if total == 0 || ACTIVITY_POOL_REWARD > self.pool_balance {
            self
        } else {
            RuntimeView {
                players: self.players.map_values(|p: PlayerView| p.rewarded(total)),
                pool_balance: (self.pool_balance - ACTIVITY_POOL_REWARD) as u64,
                ..self
            }
        }
    }

    /// The mining pool after `miner` has been credited one block's reward.
    pub open spec fn credited_pool(self, miner: Seq<char>) -> TableView<u64> {
        self.mining_pool.insert(miner, sat_add(self.mining_pool.get_or(miner, 0), BLOCK_REWARD))
    }

    /// The runtime after an attempt to mine a block. A failed attempt
    /// changes nothing; a successful one credits the miner's contribution
    /// and pays every contributor in proportion to its cumulative
    /// contribution.
    pub open spec fn mine_block(self, miner: Seq<char>, computed_hash: u64, gems: Seq<bool>)
        -> RuntimeView {
        if mining_succeeds(computed_hash) {
            let pool = self.credited_pool(miner);
            RuntimeView {
                players: pay_miners(self.players, pool, sum_of(pool.values()), gems, pool.len()),
                mining_pool: pool,
                ..self
            }
        } else {
            self
        }
    }

    /// The block that an attempt to mine produces, if it succeeds.
    pub open spec fn mined_block(
        self,
        previous_hash: Seq<char>,
        miner: Seq<char>,
        index: u64,
        nonce: u64,
        computed_hash: u64,
        timestamp: u64,
    ) -> Option<BlockView> {
        if mining_succeeds(computed_hash) {
            let pool = self.credited_pool(miner);
            Some(
                BlockView {
                    index,
                    timestamp,
                    transactions: mining_transactions(
                        self.players,
                        pool,
                        sum_of(pool.values()),
                        pool.len(),
                    ),
                    previous_hash,
                    hash: digits(computed_hash as nat, 16),
                    nonce,
                },
            )
        } else {
            None
        }
    }

    /// The runtime and the block after an attempt to mine.
    pub open spec fn mining_outcome(
        self,
        previous_hash: Seq<char>,
        miner: Seq<char>,
        index: u64,
        nonce: u64,
        computed_hash: u64,
        timestamp: u64,
        gems: Seq<bool>,
    ) -> (RuntimeView, Option<BlockView>) {
        (
            self.mine_block(miner, computed_hash, gems),
            self.mined_block(previous_hash, miner, index, nonce, computed_hash, timestamp),
        )
    }

    /// The runtime after the first `n` players, in order, have each
    /// performed the activity picked for them: pick `k` below four stands
    /// for activity type `k + 1`, any other pick for none.
    pub open spec fn simulate_upto(self, picks: Seq<(u32, bool)>, n: nat) -> RuntimeView
        decreases n,
    {
        if n == 0 {
            self
        } else {
            let earlier = self.simulate_upto(picks, (n - 1) as nat);
            let pick = pick_at(picks, n - 1);
            if pick.0 < 4 {
                earlier.record_activity(self.players.order[n - 1], (pick.0 + 1) as u32, pick.1)
            } else {
                earlier
            }
        }
    }

    /// The runtime after every player has performed the activity picked
    /// for it.
    pub open spec fn simulate_player_activity(self, picks: Seq<(u32, bool)>) -> RuntimeView {
        self.simulate_upto(picks, self.players.len())
    }

    /// Whether a trade of the item at `index1` of `id1` for the item at
    /// `index2` of `id2` can take place: both players are known and both
    /// positions lie within their inventories.
    pub open spec fn can_trade(self, id1: Seq<char>, index1: int, id2: Seq<char>, index2: int)
        -> bool {
        &&& self.players.contains(id1)
        &&& self.players.contains(id2)
        &&& 0 <= index1 < self.players.get(id1).inventory.len()
        &&& 0 <= index2 < self.players.get(id2).inventory.len()
    }

    /// The runtime after a trade that can take place: the two items change
    /// places, and each side records an activity of type three.
    pub open spec fn trade_items(
        self,
        id1: Seq<char>,
        index1: int,
        id2: Seq<char>,
        index2: int,
        bonus1: bool,
        bonus2: bool,
    ) -> RuntimeView {
        if self.can_trade(id1, index1, id2, index2) {
            let item1 = self.players.get(id1).inventory[index1];
            let item2 = self.players.get(id2).inventory[index2];
            let given = self.set_player(id1, self.players.get(id1).with_item(index1, item2));
            let taken = given.set_player(id2, given.players.get(id2).with_item(index2, item1));
            taken.record_activity(id1, 3, bonus1).record_activity(id2, 3, bonus2)
        } else {
            self
        }
    }
}

/// Replacing a player by a well-formed one of the same id keeps the runtime
/// well formed.
pub proof fn lemma_set_player_wf(state: RuntimeView, id: Seq<char>, player: PlayerView)
    requires
        state.wf(),
        player.wf(),
        player.id == id,
    ensures
        state.set_player(id, player).wf(),
{
    state.players.lemma_insert_wf(id, player);
    let next = state.set_player(id, player);
    assert forall|k: Seq<char>| #[trigger] next.players.contains(k) implies next.players.get(
        k,
    ).wf() && next.players.get(k).id == k by {
        if k != id {
            assert(state.players.contains(k));
        }
    }
}

/// Replacing one item of a list replaces its view among the views.
pub proof fn lemma_item_views_update(items: Seq<Item>, index: int, item: Item)
    requires
        0 <= index < items.len(),
    ensures
        item_views(items.update(index, item)) == item_views(items).update(index, item@),
{
    assert(item_views(items.update(index, item)) =~= item_views(items).update(index, item@));
}

/// Removing one item of a list removes its view from the views.
pub proof fn lemma_item_views_remove(items: Seq<Item>, index: int)
    requires
        0 <= index < items.len(),
    ensures
        item_views(items.remove(index)) == item_views(items).remove(index),
{
    assert(item_views(items.remove(index)) =~= item_views(items).remove(index));
}

/// A trade in which either position lies outside its player's inventory
/// cannot take place, and leaves the runtime, every inventory with it, as it
/// was.
pub proof fn lemma_trade_out_of_range(
    state: RuntimeView,
    id1: Seq<char>,
    index1: int,
    id2: Seq<char>,
    index2: int,
    bonus1: bool,
    bonus2: bool,
)
    requires
        !state.has_item(id1, index1) || !state.has_item(id2, index2),
    ensures
        !state.can_trade(id1, index1, id2, index2),
        state.trade_items(id1, index1, id2, index2, bonus1, bonus2) == state,
{
}

/// Whether `id` is among the first `n` contributors of the pool.
pub open spec fn contributes(pool: TableView<u64>, n: nat, id: Seq<char>) -> bool {
    exists|k: int| 0 <= k < n && k < pool.order.len() && #[trigger] pool.order[k] == id
}

/// Paying the miners touches each player at most once: after the first `n`
/// contributors have been paid, the same players are known in the same
/// order, a player among those contributors has received the share for its
/// contribution with the gem draw of its place in the pool, and every other
/// player is as before.
pub proof fn lemma_pay_miners_pointwise(
    players: TableView<PlayerView>,
    pool: TableView<u64>,
    total: nat,
    gems: Seq<bool>,
    n: nat,
    id: Seq<char>,
)
    requires
        pool.wf(),
        n <= pool.order.len(),
    ensures
        pay_miners(players, pool, total, gems, n).order == players.order,
        pay_miners(players, pool, total, gems, n).contains(id) == players.contains(id),
        players.contains(id) ==> pay_miners(players, pool, total, gems, n).get(id) == if contributes(
            pool,
            n,
            id,
        ) {
            players.get(id).after_mining(
                miner_reward(pool.get(id), total),
                draw_at(gems, pool.order.index_of(id)),
            )
        } else {
            players.get(id)
        },
    decreases n,
{
    if n > 0 {
        let m = (n - 1) as nat;
        lemma_pay_miners_pointwise(players, pool, total, gems, m, id);
        let last = pool.order[n - 1];
        lemma_pay_miners_pointwise(players, pool, total, gems, m, last);
        if last == id {
            assert(contributes(pool, n, id));
            assert(!contributes(pool, m, id)) by {
                if contributes(pool, m, id) {
                    let k = choose|k: int|
                        0 <= k < m && k < pool.order.len() && #[trigger] pool.order[k] == id;
                    assert(pool.order[k] == pool.order[n - 1]);
                }
            }
            assert(pool.order.index_of(id) == n - 1) by {
                assert(pool.order.contains(id));
                let j = pool.order.index_of(id);
                assert(0 <= j < pool.order.len() && pool.order[j] == id);
            }
        } else {
            assert(contributes(pool, n, id) == contributes(pool, m, id)) by {
                if contributes(pool, n, id) {
                    let k = choose|k: int|
                        0 <= k < n && k < pool.order.len() && #[trigger] pool.order[k] == id;
                    assert(k < m);
                }
            }
        }
    }
}

/// The activity that the picks give to the player at position `i`: none
/// for a pick of four or more, or for no pick.
pub open spec fn picked_activity(player: PlayerView, picks: Seq<(u32, bool)>, i: int) -> PlayerView {
    let pick = pick_at(picks, i);
    if pick.0 < 4 {
        player.after_activity((pick.0 + 1) as u32, pick.1)
    } else {
        player
    }
}

/// A simulation touches each player once: after the first `n` players have
/// performed their activity, the same players are known in the same order,
/// each of those `n` has performed the activity picked for its place, and
/// every other player is as before.
pub proof fn lemma_simulate_pointwise(state: RuntimeView, picks: Seq<(u32, bool)>, n: nat, i: int)
    requires
        state.players.wf(),
        n <= state.players.order.len(),
        0 <= i < state.players.order.len(),
    ensures
        state.simulate_upto(picks, n).players.order == state.players.order,
        state.simulate_upto(picks, n).pool_balance == state.pool_balance,
        state.simulate_upto(picks, n).mining_pool == state.mining_pool,
        state.simulate_upto(picks, n).players.contains(state.players.order[i]),
        state.simulate_upto(picks, n).players.get(state.players.order[i]) == if i < n {
            picked_activity(state.players.get(state.players.order[i]), picks, i)
        } else {
            state.players.get(state.players.order[i])
        },
    decreases n,
{
    let id = state.players.order[i];
    assert(state.players.order.contains(id));
    if n > 0 {
        let m = (n - 1) as nat;
        lemma_simulate_pointwise(state, picks, m, i);
        lemma_simulate_pointwise(state, picks, m, n - 1);
        if i != n - 1 {
            assert(state.players.order[n - 1] != id);
        }
    }
}

} // verus!
