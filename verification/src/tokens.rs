//! The token balances of the players, with a counter per player and token.

use crate::action::stat_views;
use crate::economy::sat_add;
use crate::table::{counted, raised_by, sum_of, Table, TableView};
use vstd::prelude::*;

verus! {

/// The token balances as a mathematical value: for each player, the balance
/// of each token, and a counter per player and token.
pub struct GamefiView {
    pub players: TableView<TableView<u64>>,
    pub content_stats: TableView<TableView<u64>>,
}

impl GamefiView {
    /// No balances and no counters.
    pub open spec fn initial() -> GamefiView {
        GamefiView { players: TableView::empty(), content_stats: TableView::empty() }
    }

    /// Both tables and every table in them are well formed.
    pub open spec fn wf(self) -> bool {
        &&& self.players.wf()
        &&& self.content_stats.wf()
        &&& forall|id: Seq<char>| #[trigger] self.players.contains(id) ==> self.players.get(id).wf()
        &&& forall|id: Seq<char>| #[trigger]
            self.content_stats.contains(id) ==> self.content_stats.get(id).wf()
    }

    /// The tokens that `player` holds: none for an unknown player.
    pub open spec fn tokens_of(self, player: Seq<char>) -> TableView<u64> {
        self.players.get_or(player, TableView::empty())
    }

    /// The balance that `player` holds of `token`.
    pub open spec fn balance(self, player: Seq<char>, token: Seq<char>) -> u64 {
        self.tokens_of(player).get_or(token, 0)
    }

    /// The counters after the tokens of the first `n` players have been
    /// counted: each token that a player holds is counted once under that
    /// player.
    pub open spec fn stats_upto(self, n: nat) -> TableView<TableView<u64>>
        decreases n,
    {
        if n == 0 {
            self.content_stats
        } else {
            let earlier = self.stats_upto((n - 1) as nat);
            let player = self.players.order[n - 1];
            let tokens = self.players.map[player].order;
            if tokens.len() == 0 {
                earlier
            } else {
                earlier.insert(
                    player,
                    counted(earlier.get_or(player, TableView::empty()), tokens, tokens.len()),
                )
            }
        }
    }

    /// The balances after a round of simulated activity: every balance has
    /// grown by ten, and every token held has been counted once under its
    /// holder.
    pub open spec fn simulate_player_activity(self) -> GamefiView {
        GamefiView {
            players: self.players.map_values(|tokens: TableView<u64>| raised_by(tokens, 10)),
            content_stats: self.stats_upto(self.players.len()),
        }
    }

    /// For each player, in order, the sum of its balances, held at the
    /// largest representable amount.
    pub open spec fn totals(self) -> Seq<(Seq<char>, u64)> {
        Seq::new(
            self.players.order.len(),
            |i: int|
                {
                    let total = sum_of(self.players.map[self.players.order[i]].values());
                    (
                        self.players.order[i],
                        if total > u64::MAX {
                            u64::MAX
                        } else {
                            total as u64
                        },
                    )
                },
        )
    }

    /// The balances after `player` has been granted `amount` of `token`.
    pub open spec fn grant(self, player: Seq<char>, token: Seq<char>, amount: u64) -> GamefiView {
        GamefiView {
            players: self.players.insert(
                player,
                self.tokens_of(player).insert(token, sat_add(self.balance(player, token), amount)),
            ),
            ..self
        }
    }
}

/// The token balances of the players.
#[derive(Debug, Clone, PartialEq, Eq)]
pub struct GamefiRuntime {
    pub players: Table<Table<u64>>,
    pub content_stats: Table<Table<u64>>,
}

impl View for GamefiRuntime {
    type V = GamefiView;

    open spec fn view(&self) -> GamefiView {
        GamefiView { players: self.players@, content_stats: self.content_stats@ }
    }
}

impl GamefiRuntime {
    /// Both tables and every table stored in them are well formed.
    pub open spec fn wf(&self) -> bool {
        &&& self.players.wf()
        &&& self.content_stats.wf()
        &&& forall|i: int|
            0 <= i < self.players.values@.len() ==> (#[trigger] self.players.values@[i]).wf()
        &&& forall|i: int|
            0 <= i < self.content_stats.values@.len() ==> (#[trigger] self.content_stats.values@[
                i
            ]).wf()
    }

    /// The view of a well-formed runtime is well formed.
    pub proof fn lemma_view_wf(&self)
        requires
            self.wf(),
        ensures
            self@.wf(),
    {
        assert forall|id: Seq<char>| #[trigger]
            self@.players.contains(id) implies self@.players.get(id).wf() by {
            let i = self.players.lemma_position(id);
            assert(self.players.values@[i].wf());
        }
        assert forall|id: Seq<char>| #[trigger] self@.content_stats.contains(
            id,
        ) implies self@.content_stats.get(id).wf() by {
            let i = self.content_stats.lemma_position(id);
            assert(self.content_stats.values@[i].wf());
        }
    }

    /// Checks that the runtime is well formed.
    pub fn is_well_formed(&self) -> (ok: bool)
        ensures
            ok == self.wf(),
    {
        if !self.players.is_well_formed() || !self.content_stats.is_well_formed() {
            return false;
        }
        let mut i: usize = 0;
        while i < self.players.values.len()
            invariant
                i <= self.players.values@.len(),
                forall|j: int| 0 <= j < i ==> (#[trigger] self.players.values@[j]).wf(),
            decreases self.players.values@.len() - i,
        {
            if !self.players.values[i].is_well_formed() {
                return false;
            }
            i += 1;
        }
        let mut k: usize = 0;
        while k < self.content_stats.values.len()
            invariant
                k <= self.content_stats.values@.len(),
                forall|j: int| 0 <= j < k ==> (#[trigger] self.content_stats.values@[j]).wf(),
            decreases self.content_stats.values@.len() - k,
        {
            if !self.content_stats.values[k].is_well_formed() {
                return false;
            }
            k += 1;
        }
        true
    }

    /// Makes a runtime without balances.
    pub fn new() -> (runtime: GamefiRuntime)
        ensures
            runtime.wf(),
            runtime@ == GamefiView::initial(),
    {
        GamefiRuntime { players: Table::new(), content_stats: Table::new() }
    }

    /// Raises every balance by ten and counts every token held once under
    /// its holder.
    pub fn simulate_player_activity(&mut self)
        requires
            old(self).wf(),
        ensures
            final(self).wf(),
            final(self)@ == old(self)@.simulate_player_activity(),
    {
        let ghost start = *self;
        let mut i: usize = 0;
        proof {
            start.players.lemma_view_wf();
        }
        while i < self.players.keys.len()
            invariant
                start.wf(),
                self.wf(),
                i <= self.players.keys@.len(),
                self.players.keys@ == start.players.keys@,
                self.players.values@.len() == start.players.values@.len(),
                forall|j: int|
                    0 <= j < i ==> (#[trigger] self.players.values@[j])@ == raised_by(
                        start.players.values@[j]@,
                        10,
                    ),
                forall|j: int|
                    i <= j < self.players.values@.len() ==> self.players.values@[j]
                        == start.players.values@[j],
                self.content_stats@ == start@.stats_upto(i as nat),
            decreases self.players.keys@.len() - i,
        {
            let ghost before = *self;
            proof {
                start.players.lemma_entry(i as int);
                assert(self.players.values@[i as int] == start.players.values@[i as int]);
            }
            self.players.values[i].raise_all(10);
            if self.players.values[i].keys.len() > 0 {
                match self.content_stats.position(self.players.keys[i].as_str()) {
                    Some(c) => {
                        self.content_stats.values[c].count_each(&self.players.values[i].keys);
                        proof {
                            Table::lemma_value_set(
                                &before.content_stats,
                                &self.content_stats,
                                c as int,
                            );
                        }
                    },
                    None => {
                        let mut counters: Table<u64> = Table::new();
                        counters.count_each(&self.players.values[i].keys);
                        self.content_stats.insert(self.players.keys[i].clone(), counters);
                    },
                }
            }
            proof {
                assert(start.players.values@[i as int]@.order =~= Seq::new(
                    self.players.values@[i as int].keys@.len(),
                    |t: int| self.players.values@[i as int].keys@[t]@,
                ));
            }
            i += 1;
        }
        proof {
            let raise = |tokens: TableView<u64>| raised_by(tokens, 10);
            assert forall|j: int|
                0 <= j < start.players.values@.len() implies self.players.values@[j]@ == raise(
                start.players.values@[j]@,
            ) by {
                assert(self.players.values@[j]@ == raised_by(start.players.values@[j]@, 10));
            }
            Table::lemma_values_mapped(&start.players, &self.players, raise);
        }
    }

    /// Lists, for each player in order, the sum of its balances.
    pub fn show_leaderboard(&self) -> (rows: Vec<(String, u64)>)
        requires
            self.wf(),
        ensures
            stat_views(rows@) == self@.totals(),
    {
        let mut rows: Vec<(String, u64)> = Vec::new();
        let mut i: usize = 0;
        while i < self.players.keys.len()
            invariant
                self.wf(),
                i <= self.players.keys@.len(),
                rows@.len() == i,
                forall|j: int|
                    0 <= j < i ==> (#[trigger] stat_views(rows@)[j])
                        == self@.totals()[j],
            decreases self.players.keys@.len() - i,
        {
            proof {
                self.players.lemma_entry(i as int);
            }
            let ghost earlier = rows@;
            let total = self.players.values[i].total();
            let capped: u64 = if total > u64::MAX as u128 {
                u64::MAX
            } else {
                total as u64
            };
            let row = (self.players.keys[i].clone(), capped);
            rows.push(row);
            proof {
                assert forall|j: int| 0 <= j < i + 1 implies (#[trigger] stat_views(
                    rows@,
                )[j]) == self@.totals()[j] by {
                    if j < i {
                        assert(stat_views(earlier)[j] == self@.totals()[j]);
                    }
                }
            }
            i += 1;
        }
        proof {
            assert(stat_views(rows@) =~= self@.totals());
        }
        rows
    }

    /// The balance that `player` holds of `token`: nothing for an unknown
    /// player or token.
    pub fn balance(&self, player: &str, token: &str) -> (balance: u64)
        requires
            self.wf(),
        ensures
            balance == self@.balance(player@, token@),
    {
        match self.players.position(player) {
            Some(i) => self.players.values[i].amount(token),
            None => {
                assert(TableView::<u64>::empty().get_or(token@, 0) == 0);
                0
            },
        }
    }

    /// Grants `player` `amount` of `token`; the balance is held at the
    /// largest representable amount.
    pub fn grant(&mut self, player: &str, token: &str, amount: u64)
        requires
            old(self).wf(),
        ensures
            final(self).wf(),
            final(self)@ == old(self)@.grant(player@, token@, amount),
    {
        let ghost before = *self;
        match self.players.position(player) {
            Some(i) => {
                self.players.values[i].credit(token, amount);
                proof {
                    Table::lemma_value_set(&before.players, &self.players, i as int);
                }
            },
            None => {
                let mut tokens: Table<u64> = Table::new();
                tokens.credit(token, amount);
                self.players.insert(player.to_owned(), tokens);
            },
        }
    }
}

} // verus!
