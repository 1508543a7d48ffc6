//! Items, players and the leveling curve.

use vstd::prelude::*;

verus! {

/// A named thing of value that a player can own.
#[derive(Debug, Clone, PartialEq, Eq)]
pub struct Item {
    pub name: String,
    pub value: u64,
}

/// An item as a mathematical value.
pub struct ItemView {
    pub name: Seq<char>,
    pub value: u64,
}

impl View for Item {
    type V = ItemView;

    open spec fn view(&self) -> ItemView {
        ItemView { name: self.name@, value: self.value }
    }
}

/// The views of a list of items, in order.
pub open spec fn item_views(items: Seq<Item>) -> Seq<ItemView> {
    Seq::new(items.len(), |i: int| items[i]@)
}

/// A participant of the economy.
#[derive(Debug, Clone, PartialEq, Eq)]
pub struct Player {
    pub id: String,
    pub solutio_balance: u64,
    pub mtoshi_balance: u64,
    pub activity_points: u64,
    pub level: u32,
    pub experience: u64,
    pub inventory: Vec<Item>,
    pub strength: u32,
}

/// A player as a mathematical value.
pub struct PlayerView {
    pub id: Seq<char>,
    pub solutio_balance: u64,
    pub mtoshi_balance: u64,
    pub activity_points: u64,
    pub level: u32,
    pub experience: u64,
    pub inventory: Seq<ItemView>,
    pub strength: u32,
}

impl View for Player {
    type V = PlayerView;

    open spec fn view(&self) -> PlayerView {
        PlayerView {
            id: self.id@,
            solutio_balance: self.solutio_balance,
            mtoshi_balance: self.mtoshi_balance,
            activity_points: self.activity_points,
            level: self.level,
            experience: self.experience,
            inventory: item_views(self.inventory@),
            strength: self.strength,
        }
    }
}

/// The experience that lifts a player of the given level to the next one.
pub open spec fn xp_threshold(level: u32) -> u64 {
    (level * 100) as u64
}

/// The level and the experience left once every threshold that the
/// experience covers has been paid. The level stops at the largest
/// representable one.
pub open spec fn settle(level: u32, experience: u64) -> (u32, u64)
    decreases experience,
{
    if 1 <= level < u32::MAX && experience >= xp_threshold(level) {
        settle((level + 1) as u32, (experience - xp_threshold(level)) as u64)
    } else {
        (level, experience)
    }
}

/// Strength after gaining `levels` levels at two points each, held at the
/// largest representable strength.
pub open spec fn strength_after(strength: u32, levels: int) -> u32 {
    if strength + 2 * levels > u32::MAX {
        u32::MAX
    } else {
        (strength + 2 * levels) as u32
    }
}

impl PlayerView {
    /// A player as first seen: level one, strength ten, nothing owned.
    pub open spec fn fresh(id: Seq<char>) -> PlayerView {
        PlayerView {
            id,
            solutio_balance: 0,
            mtoshi_balance: 0,
            activity_points: 0,
            level: 1,
            experience: 0,
            inventory: Seq::empty(),
            strength: 10,
        }
    }

    /// The level is at least one, the strength at least ten, and below the
    /// top level the experience stays under the next threshold.
    pub open spec fn wf(self) -> bool {
        &&& self.level >= 1
        &&& self.strength >= 10
        &&& self.level < u32::MAX ==> self.experience < xp_threshold(self.level)
    }

    /// The player after gaining `xp` experience.
    pub open spec fn gain_experience(self, xp: u64) -> PlayerView {
        let total = crate::economy::sat_add(self.experience, xp);
        let settled = settle(self.level, total);
        PlayerView {
            level: settled.0,
            experience: settled.1,
            strength: strength_after(self.strength, settled.0 - self.level),
            ..self
        }
    }

    /// The player with `item` appended to the inventory.
    pub open spec fn add_item(self, item: ItemView) -> PlayerView {
        PlayerView { inventory: self.inventory.push(item), ..self }
    }

    /// The player with `points` more activity points.
    pub open spec fn add_points(self, points: u64) -> PlayerView {
        PlayerView {
            activity_points: crate::economy::sat_add(self.activity_points, points),
            ..self
        }
    }

    /// The player with `amount` more of the spendable currency.
    pub open spec fn credit(self, amount: u64) -> PlayerView {
        PlayerView { mtoshi_balance: crate::economy::sat_add(self.mtoshi_balance, amount), ..self }
    }

    /// The player with `amount` less of the spendable currency.
    pub open spec fn debit(self, amount: u64) -> PlayerView
        recommends
            self.mtoshi_balance >= amount,
    {
        PlayerView { mtoshi_balance: (self.mtoshi_balance - amount) as u64, ..self }
    }
}

/// Settling never lowers the level, and leaves a level of at least one.
pub proof fn lemma_settle_bounds(level: u32, experience: u64)
    requires
        level >= 1,
    ensures
        settle(level, experience).0 >= level,
        settle(level, experience).1 <= experience,
        settle(level, experience).0 < u32::MAX ==> settle(level, experience).1 < xp_threshold(
            settle(level, experience).0,
        ),
    decreases experience,
{
    if 1 <= level < u32::MAX && experience >= xp_threshold(level) {
        lemma_settle_bounds((level + 1) as u32, (experience - xp_threshold(level)) as u64);
    }
}

/// Gaining experience keeps a player well formed, and changes nothing but
/// level, experience and strength.
pub proof fn lemma_gain_experience_wf(p: PlayerView, xp: u64)
    requires
        p.wf(),
    ensures
        p.gain_experience(xp).wf(),
        p.gain_experience(xp).level >= p.level,
        p.gain_experience(xp).strength >= p.strength,
{
    lemma_settle_bounds(p.level, crate::economy::sat_add(p.experience, xp));
}

/// Appending one item to a list appends its view to the views.
pub proof fn lemma_item_views_push(items: Seq<Item>, item: Item)
    ensures
        item_views(items.push(item)) == item_views(items).push(item@),
{
    assert(item_views(items.push(item)) =~= item_views(items).push(item@));
}

impl Player {
    /// Makes a player as first seen.
    pub fn new(id: String) -> (player: Player)
        ensures
            player@ == PlayerView::fresh(id@),
            player.id == id,
            player@.wf(),
    {
        let player = Player {
            id,
            solutio_balance: 0,
            mtoshi_balance: 0,
            activity_points: 0,
            level: 1,
            experience: 0,
            inventory: Vec::new(),
            strength: 10,
        };
        assert(player@.inventory =~= Seq::<ItemView>::empty());
        player
    }

    /// The experience that lifts a player of the given level to the next one:
    /// a hundred times the level.
    pub fn xp_for_next_level(level: u32) -> (xp: u64)
        ensures
            xp == xp_threshold(level),
    {
        (level as u64) * 100
    }

    /// Adds `xp` experience, then pays the threshold of each level that the
    /// experience covers: each payment raises the level by one and the
    /// strength by two.
    pub fn gain_experience(&mut self, xp: u64)
        requires
            old(self)@.wf(),
        ensures
            final(self)@ == old(self)@.gain_experience(xp),
            final(self)@.wf(),
    {
        let ghost start = self@;
        self.experience = self.experience.saturating_add(xp);
        let ghost total = self.experience;
        proof {
            lemma_gain_experience_wf(start, xp);
        }
        while self.level < u32::MAX && self.experience >= Self::xp_for_next_level(self.level)
            invariant
                self.level >= start.level >= 1,
                settle(self.level, self.experience) == settle(start.level, total),
                self.strength == strength_after(start.strength, self.level - start.level),
                self@ == (PlayerView {
                    level: self.level,
                    experience: self.experience,
                    strength: self.strength,
                    ..start
                }),
            decreases self.experience,
        {
            self.experience -= Self::xp_for_next_level(self.level);
            self.level += 1;
            self.strength = self.strength.saturating_add(2);
        }
    }

    /// Checks that the player is well formed.
    pub fn is_well_formed(&self) -> (ok: bool)
        ensures
            ok == self@.wf(),
    {
        self.level >= 1 && self.strength >= 10 && (self.level == u32::MAX || self.experience
            < Self::xp_for_next_level(self.level))
    }

    /// Appends `item` to the inventory.
    pub fn add_item(&mut self, item: Item)
        ensures
            final(self)@ == old(self)@.add_item(item@),
    {
        proof {
            lemma_item_views_push(self.inventory@, item);
        }
        self.inventory.push(item);
    }
}

} // verus!
