//! The ledger and its action processor: one owned value holds every
//! balance, record and pool, and one entry point applies an action to it.

use crate::action::{
    data_views, leaderboard_views, listing_row_views, post_row_views, stat_views,
    video_row_views, Action, ActionError, ActionResult, ActionResultView, ActionView, Entity,
    LeaderboardRow, ListingRow, OnceOnly, PostRow, RangeField, VideoRow,
};
use crate::chance::{draw_u64, seeded_rng};
use crate::clock::unix_seconds;
use crate::draws::{Draws, DrawsView};
use crate::economy::{
    burn, burn_of, clip_to_cap, mining_reward, split_revenue, ACTIVITY_POOL_REWARD,
    COMMENT_REWARD, DAILY_CEILING, LIKE_REWARD, MINT_COST, PAID_LIKE_COST, POST_COST, SCALE,
    TOKEN_GRANT, UPLOAD_COST,
};
use crate::ledger::{listed_price, settles, unlisted, LedgerView};
use crate::player::Item;
use crate::runtime::rules::{is_ranking, ranked, RuntimeView};
use crate::runtime::GameFiRuntime;
use crate::social::{all_distinct, contains_text, ContentRecord, PostRecord};
use crate::table::{Table, TableView};
use crate::text::decimal_string;
use crate::tokens::GamefiRuntime;
use vstd::prelude::*;

verus! {

/// The ledger: token balances, the player runtime, the marketplace, the
/// content and post records, reputations, the daily reward tracker and the
/// pools.
#[derive(Debug)]
pub struct Blockchain {
    pub gamefi_runtime: GamefiRuntime,
    pub full_gamefi_runtime: GameFiRuntime,
    pub nft_marketplace: Table<Vec<(u32, u64)>>,
    pub content: Table<ContentRecord>,
    pub posts: Table<PostRecord>,
    pub reputations: Table<u64>,
    pub daily_rewards: Table<u64>,
    pub total_users: u64,
    pub platform_pool: u64,
    pub community_pool: u64,
}

impl View for Blockchain {
    type V = LedgerView;

    open spec fn view(&self) -> LedgerView {
        LedgerView {
            gamefi: self.gamefi_runtime@,
            runtime: self.full_gamefi_runtime@,
            marketplace: self.nft_marketplace@,
            content: self.content@,
            posts: self.posts@,
            reputations: self.reputations@,
            daily_rewards: self.daily_rewards@,
            total_users: self.total_users,
            platform_pool: self.platform_pool,
            community_pool: self.community_pool,
        }
    }
}

/// A ledger that differs from `before` in the content record at position
/// `i` alone, which stays well formed, is `before` with that record
/// replaced.
pub proof fn lemma_content_changed(before: &Blockchain, after: &Blockchain, i: int)
    requires
        before.wf(),
        0 <= i < before.content.keys@.len(),
        after.content.keys@ == before.content.keys@,
        after.content.values@.len() == before.content.values@.len(),
        forall|j: int|
            0 <= j < before.content.values@.len() && j != i ==> after.content.values@[j]
                == before.content.values@[j],
        after.content.values@[i]@.wf(),
        after.gamefi_runtime == before.gamefi_runtime,
        after.full_gamefi_runtime == before.full_gamefi_runtime,
        after.nft_marketplace == before.nft_marketplace,
        after.posts == before.posts,
        after.reputations == before.reputations,
        after.daily_rewards == before.daily_rewards,
        after.total_users == before.total_users,
        after.platform_pool == before.platform_pool,
        after.community_pool == before.community_pool,
    ensures
        after.wf(),
        after@ == (LedgerView {
            content: before@.content.insert(before.content.keys@[i]@, after.content.values@[i]@),
            ..before@
        }),
{
    Table::lemma_value_set(&before.content, &after.content, i);
    assert forall|id: Seq<char>| #[trigger] after@.content.contains(id) implies after@.content.get(
        id,
    ).wf() by {
        if id != before.content.keys@[i]@ {
            assert(before@.content.contains(id));
        }
    }
}

/// A ledger that differs from `before` in the post record at position `i`
/// alone, which stays well formed, is `before` with that record replaced.
pub proof fn lemma_post_changed(before: &Blockchain, after: &Blockchain, i: int)
    requires
        before.wf(),
        0 <= i < before.posts.keys@.len(),
        after.posts.keys@ == before.posts.keys@,
        after.posts.values@.len() == before.posts.values@.len(),
        forall|j: int|
            0 <= j < before.posts.values@.len() && j != i ==> after.posts.values@[j]
                == before.posts.values@[j],
        after.posts.values@[i]@.wf(),
        after.gamefi_runtime == before.gamefi_runtime,
        after.full_gamefi_runtime == before.full_gamefi_runtime,
        after.nft_marketplace == before.nft_marketplace,
        after.content == before.content,
        after.reputations == before.reputations,
        after.daily_rewards == before.daily_rewards,
        after.total_users == before.total_users,
        after.platform_pool == before.platform_pool,
        after.community_pool == before.community_pool,
    ensures
        after.wf(),
        after@ == (LedgerView {
            posts: before@.posts.insert(before.posts.keys@[i]@, after.posts.values@[i]@),
            ..before@
        }),
{
    Table::lemma_value_set(&before.posts, &after.posts, i);
    assert forall|id: Seq<char>| #[trigger] after@.posts.contains(id) implies after@.posts.get(
        id,
    ).wf() by {
        if id != before.posts.keys@[i]@ {
            assert(before@.posts.contains(id));
        }
    }
}

impl Blockchain {
    /// Every table is well formed, and so is the ledger they make up.
    pub open spec fn wf(&self) -> bool {
        &&& self.gamefi_runtime.wf()
        &&& self.full_gamefi_runtime.wf()
        &&& self.nft_marketplace.wf()
        &&& self.content.wf()
        &&& self.posts.wf()
        &&& self.reputations.wf()
        &&& self.daily_rewards.wf()
        &&& self@.wf()
    }

    /// Checks that the ledger is well formed. Every ledger that was made
    /// by this library and changed through it alone is.
    pub fn is_well_formed(&self) -> (ok: bool)
        ensures
            ok == self.wf(),
    {
        if !self.gamefi_runtime.is_well_formed() || !self.full_gamefi_runtime.is_well_formed()
            || !self.nft_marketplace.is_well_formed() || !self.content.is_well_formed()
            || !self.posts.is_well_formed() || !self.reputations.is_well_formed()
            || !self.daily_rewards.is_well_formed() {
            return false;
        }
        proof {
            self.gamefi_runtime.lemma_view_wf();
        }
        let mut i: usize = 0;
        while i < self.daily_rewards.values.len()
            invariant
                self.daily_rewards.wf(),
                i <= self.daily_rewards.values@.len(),
                forall|j: int|
                    0 <= j < i ==> (#[trigger] self.daily_rewards.values@[j]) <= DAILY_CEILING,
            decreases self.daily_rewards.values@.len() - i,
        {
            if self.daily_rewards.values[i] > DAILY_CEILING {
                proof {
                    self.daily_rewards.lemma_entry(i as int);
                    assert(self@.daily_rewards.contains(self.daily_rewards.keys@[i as int]@));
                }
                return false;
            }
            i += 1;
        }
        let mut c: usize = 0;
        while c < self.content.values.len()
            invariant
                self.content.wf(),
                c <= self.content.values@.len(),
                forall|j: int| 0 <= j < c ==> (#[trigger] self.content.values@[j])@.wf(),
            decreases self.content.values@.len() - c,
        {
            if !all_distinct(&self.content.values[c].likes) {
                proof {
                    self.content.lemma_entry(c as int);
                    assert(self@.content.contains(self.content.keys@[c as int]@));
                }
                return false;
            }
            c += 1;
        }
        let mut p: usize = 0;
        while p < self.posts.values.len()
            invariant
                self.posts.wf(),
                p <= self.posts.values@.len(),
                forall|j: int| 0 <= j < p ==> (#[trigger] self.posts.values@[j])@.wf(),
            decreases self.posts.values@.len() - p,
        {
            if !all_distinct(&self.posts.values[p].likes) {
                proof {
                    self.posts.lemma_entry(p as int);
                    assert(self@.posts.contains(self.posts.keys@[p as int]@));
                }
                return false;
            }
            p += 1;
        }
        proof {
            assert forall|id: Seq<char>| #[trigger] self@.daily_rewards.contains(
                id,
            ) implies self@.daily_rewards.get(id) <= DAILY_CEILING by {
                let j = self.daily_rewards.lemma_position(id);
                assert(self.daily_rewards.values@[j] <= DAILY_CEILING);
            }
            assert forall|id: Seq<char>| #[trigger]
                self@.content.contains(id) implies self@.content.get(id).wf() by {
                let j = self.content.lemma_position(id);
                assert(self.content.values@[j]@.wf());
            }
            assert forall|id: Seq<char>| #[trigger]
                self@.posts.contains(id) implies self@.posts.get(id).wf() by {
                let j = self.posts.lemma_position(id);
                assert(self.posts.values@[j]@.wf());
            }
        }
        true
    }

    /// Makes an empty ledger whose draws come from fresh entropy.
    pub fn new() -> (ledger: Blockchain)
        ensures
            ledger.wf(),
            ledger@ == LedgerView::initial(),
    {
        Self::with_runtime(GameFiRuntime::new())
    }

    /// Makes an empty ledger whose runtime draws from the generator seeded
    /// with `seed`.
    pub fn with_seed(seed: u64) -> (ledger: Blockchain)
        ensures
            ledger.wf(),
            ledger@ == LedgerView::initial(),
            ledger.full_gamefi_runtime.dice == seeded_rng(seed),
    {
        Self::with_runtime(GameFiRuntime::with_seed(seed))
    }

    /// Makes an empty ledger around an empty runtime, which it holds as it
    /// was handed in, generator and all.
    fn with_runtime(runtime: GameFiRuntime) -> (ledger: Blockchain)
        requires
            runtime.wf(),
            runtime@ == RuntimeView::initial(),
        ensures
            ledger.wf(),
            ledger@ == LedgerView::initial(),
            ledger.full_gamefi_runtime == runtime,
    {
        let ledger = Blockchain {
            gamefi_runtime: GamefiRuntime::new(),
            full_gamefi_runtime: runtime,
            nft_marketplace: Table::new(),
            content: Table::new(),
            posts: Table::new(),
            reputations: Table::new(),
            daily_rewards: Table::new(),
            total_users: 1000,
            platform_pool: 0,
            community_pool: 0,
        };
        proof {
            ledger.gamefi_runtime.lemma_view_wf();
        }
        ledger
    }

    /// The tiered reward that a view by `player` is worth, from the
    /// population estimate and the player's reputation.
    pub fn get_mining_reward(&self, player: &str) -> (reward: u64)
        requires
            self.wf(),
        ensures
            reward == self@.mining_reward(player@),
    {
        mining_reward(self.total_users, self.reputations.amount(player))
    }

    /// Lets through what the daily cap allows of a reward of `reward` for
    /// `player`, adds it to the player's running total and returns it.
    ///
    /// Nothing here ever resets a running total: the cap holds for as long
    /// as the tracker is kept, and a host that wants a daily period clears
    /// `daily_rewards` at its day boundary.
    pub fn check_daily_cap(&mut self, player: &str, reward: u64) -> (allowed: u64)
        requires
            old(self).wf(),
        ensures
            final(self).wf(),
            allowed == old(self)@.allowed(player@, reward),
            allowed <= reward,
            old(self)@.granted(player@) + allowed <= DAILY_CEILING,
            final(self)@.granted(player@) == old(self)@.granted(player@) + allowed,
            final(self)@ == old(self)@.check_daily_cap(player@, reward),
    {
        let ghost before = self@;
        let current = self.daily_rewards.amount(player);
        let allowed = clip_to_cap(current, reward);
        self.daily_rewards.credit(player, allowed);
        proof {
            assert forall|id: Seq<char>| #[trigger]
                self@.daily_rewards.contains(id) implies self@.daily_rewards.get(id)
                <= DAILY_CEILING by {
                if id != player@ {
                    assert(before.daily_rewards.contains(id));
                }
            }
        }
        allowed
    }

    /// Computes the burn associated with `amount`: one percent. The burn is
    /// reported only; no balance is reduced by it.
    pub fn burn_tokens(&self, amount: u64) -> (burned: u64)
        ensures
            burned == burn_of(amount),
    {
        burn(amount)
    }

    /// Rewards `creator` with `proposed` as far as the daily cap allows.
    pub fn pay_creator(&mut self, creator: &str, proposed: u64)
        requires
            old(self).wf(),
        ensures
            final(self).wf(),
            final(self)@ == old(self)@.pay_creator(creator@, proposed),
    {
        let allowed = self.check_daily_cap(creator, proposed);
        self.full_gamefi_runtime.credit(creator, allowed);
    }

    /// Raises the reputation of `player` by `amount`.
    pub fn add_reputation(&mut self, player: &str, amount: u64)
        requires
            old(self).wf(),
        ensures
            final(self).wf(),
            final(self)@ == old(self)@.add_reputation(player@, amount),
    {
        self.reputations.credit(player, amount);
    }

    /// Grants `player` a thousand of `token` and registers the player if it
    /// was unknown. Returns the amount granted.
    pub fn request_tokens(&mut self, player: &str, token: &str) -> (amount: u64)
        requires
            old(self).wf(),
        ensures
            final(self).wf(),
            amount == TOKEN_GRANT,
            final(self)@ == old(self)@.request_tokens(player@, token@),
    {
        self.gamefi_runtime.grant(player, token, TOKEN_GRANT);
        self.full_gamefi_runtime.ensure_player(player);
        proof {
            self.gamefi_runtime.lemma_view_wf();
        }
        TOKEN_GRANT
    }

    /// Mints an item for `player` against the minting fee.
    pub fn mint_nft(&mut self, player: &str, name: String, value: u64) -> (result: Result<
        (),
        ActionError,
    >)
        requires
            old(self).wf(),
        ensures
            final(self).wf(),
            settles(old(self)@, old(self)@.mint_nft(player@, name@, value), final(self)@, result),
    {
        if !self.full_gamefi_runtime.can_pay(player, MINT_COST) {
            return Err(ActionError::InsufficientFunds);
        }
        self.full_gamefi_runtime.debit(player, MINT_COST);
        self.full_gamefi_runtime.give_item(player, Item { name, value });
        Ok(())
    }

    /// Lists the item at position `nft_index` of the seller's inventory for
    /// sale at `price`.
    pub fn sell_nft(&mut self, seller: &str, nft_index: u32, price: u64) -> (result: Result<
        (),
        ActionError,
    >)
        requires
            old(self).wf(),
        ensures
            final(self).wf(),
            settles(
                old(self)@,
                old(self)@.sell_nft(seller@, nft_index, price),
                final(self)@,
                result,
            ),
    {
        if !self.full_gamefi_runtime.players.contains_key(seller) {
            return Err(ActionError::NotFound { entity: Entity::Seller });
        }
        if !self.full_gamefi_runtime.has_item(seller, nft_index as usize) {
            return Err(ActionError::InvalidRange { field: RangeField::NftIndex });
        }
        let ghost before = *self;
        match self.nft_marketplace.position(seller) {
            Some(m) => {
                self.nft_marketplace.values[m].push((nft_index, price));
                proof {
                    Table::lemma_value_set(
                        &before.nft_marketplace,
                        &self.nft_marketplace,
                        m as int,
                    );
                }
            },
            None => {
                let mut listings: Vec<(u32, u64)> = Vec::new();
                listings.push((nft_index, price));
                assert(listings@ =~= Seq::<(u32, u64)>::empty().push((nft_index, price)));
                self.nft_marketplace.insert(seller.to_owned(), listings);
            },
        }
        Ok(())
    }

    /// Finds the price of the first listing for the item at `nft_index`.
    pub fn find_price(listings: &Vec<(u32, u64)>, nft_index: u32) -> (price: Option<u64>)
        ensures
            price == listed_price(listings@, nft_index),
    {
        let mut i: usize = 0;
        assert(listings@.skip(0) =~= listings@);
        while i < listings.len()
            invariant
                i <= listings@.len(),
                listed_price(listings@, nft_index) == listed_price(
                    listings@.skip(i as int),
                    nft_index,
                ),
            decreases listings@.len() - i,
        {
            let entry = listings[i];
            assert(listings@.skip(i as int)[0] == listings@[i as int]);
            if entry.0 == nft_index {
                return Some(entry.1);
            }
            assert(listings@.skip(i as int).drop_first() =~= listings@.skip(i + 1));
            i += 1;
        }
        assert(listings@.skip(i as int).len() == 0);
        None
    }

    /// Copies the listings that are not for the item at `nft_index`.
    pub fn without_listing(listings: &Vec<(u32, u64)>, nft_index: u32) -> (kept: Vec<(u32, u64)>)
        ensures
            kept@ == unlisted(listings@, nft_index),
    {
        let mut kept: Vec<(u32, u64)> = Vec::new();
        let mut i: usize = 0;
        assert(listings@.take(0) =~= Seq::<(u32, u64)>::empty());
        while i < listings.len()
            invariant
                i <= listings@.len(),
                kept@ == unlisted(listings@.take(i as int), nft_index),
            decreases listings@.len() - i,
        {
            let entry = listings[i];
            assert(listings@.take(i + 1).drop_last() =~= listings@.take(i as int));
            assert(listings@.take(i + 1).last() == listings@[i as int]);
            if entry.0 != nft_index {
                kept.push(entry);
            }
            i += 1;
        }
        assert(listings@.take(i as int) =~= listings@);
        kept
    }

    /// Buys the item that `seller` listed at position `nft_index`.
    pub fn buy_nft(&mut self, buyer: &str, seller: &str, nft_index: u32) -> (result: Result<
        (),
        ActionError,
    >)
        requires
            old(self).wf(),
        ensures
            final(self).wf(),
            settles(
                old(self)@,
                old(self)@.buy_nft(buyer@, seller@, nft_index),
                final(self)@,
                result,
            ),
    {
        let m = match self.nft_marketplace.position(seller) {
            Some(m) => m,
            None => {
                assert(listed_price(Seq::<(u32, u64)>::empty(), nft_index) is None);
                return Err(ActionError::NotFound { entity: Entity::Listing });
            },
        };
        let price = match Self::find_price(&self.nft_marketplace.values[m], nft_index) {
            Some(price) => price,
            None => {
                return Err(ActionError::NotFound { entity: Entity::Listing });
            },
        };
        if !self.full_gamefi_runtime.can_pay(buyer, price) {
            return Err(ActionError::InsufficientFunds);
        }
        if !self.full_gamefi_runtime.has_item(seller, nft_index as usize) {
            return Err(ActionError::NotFound { entity: Entity::SellerOrNft });
        }
        let ghost before = *self;
        let item = self.full_gamefi_runtime.take_item(seller, nft_index as usize);
        self.full_gamefi_runtime.give_item(buyer, item);
        self.full_gamefi_runtime.debit(buyer, price);
        self.full_gamefi_runtime.credit(seller, price);
        let kept = Self::without_listing(&self.nft_marketplace.values[m], nft_index);
        self.nft_marketplace.values[m] = kept;
        proof {
            Table::lemma_value_set(&before.nft_marketplace, &self.nft_marketplace, m as int);
        }
        Ok(())
    }

    /// Records content uploaded by `player` against the upload fee.
    pub fn upload_content(&mut self, player: &str, content_id: String, title: String) -> (result:
        Result<(), ActionError>)
        requires
            old(self).wf(),
        ensures
            final(self).wf(),
            settles(
                old(self)@,
                old(self)@.upload_content(player@, content_id@, title@),
                final(self)@,
                result,
            ),
    {
        if !self.full_gamefi_runtime.can_pay(player, UPLOAD_COST) {
            return Err(ActionError::InsufficientFunds);
        }
        let ghost before = self@;
        self.full_gamefi_runtime.debit(player, UPLOAD_COST);
        let record = ContentRecord::new(player.to_owned(), title);
        self.content.insert(content_id, record);
        proof {
            assert forall|id: Seq<char>| #[trigger]
                self@.content.contains(id) implies self@.content.get(id).wf() by {
                if id != content_id@ {
                    assert(before.content.contains(id));
                }
            }
        }
        self.add_reputation(player, 5);
        Ok(())
    }

    /// Records a like of `player` on a piece of content and rewards the
    /// creator.
    pub fn like_content(&mut self, player: &str, content_id: &str) -> (result: Result<
        (),
        ActionError,
    >)
        requires
            old(self).wf(),
        ensures
            final(self).wf(),
            settles(
                old(self)@,
                old(self)@.like_content(player@, content_id@),
                final(self)@,
                result,
            ),
    {
        let i = match self.content.position(content_id) {
            Some(i) => i,
            None => {
                return Err(ActionError::NotFound { entity: Entity::Content });
            },
        };
        if contains_text(&self.content.values[i].likes, player) {
            return Err(ActionError::AlreadyDone { action: OnceOnly::Like });
        }
        let ghost before = *self;
        proof {
            before.content.lemma_entry(i as int);
            assert(before@.content.contains(content_id@));
        }
        let creator = self.content.values[i].creator.clone();
        self.content.values[i].add_like(player.to_owned());
        proof {
            lemma_content_changed(&before, self, i as int);
        }
        self.pay_creator(creator.as_str(), LIKE_REWARD);
        self.add_reputation(player, 1);
        Ok(())
    }

    /// Records a comment of `player` on a piece of content and rewards the
    /// creator.
    pub fn comment_content(&mut self, player: &str, content_id: &str, comment: String) -> (result:
        Result<(), ActionError>)
        requires
            old(self).wf(),
        ensures
            final(self).wf(),
            settles(
                old(self)@,
                old(self)@.comment_content(player@, content_id@, comment@),
                final(self)@,
                result,
            ),
    {
        let i = match self.content.position(content_id) {
            Some(i) => i,
            None => {
                return Err(ActionError::NotFound { entity: Entity::Content });
            },
        };
        let ghost before = *self;
        proof {
            before.content.lemma_entry(i as int);
            assert(before@.content.contains(content_id@));
        }
        let creator = self.content.values[i].creator.clone();
        self.content.values[i].add_comment(comment);
        proof {
            lemma_content_changed(&before, self, i as int);
        }
        self.pay_creator(creator.as_str(), COMMENT_REWARD);
        self.add_reputation(player, 1);
        Ok(())
    }

    /// Counts a view of `player` on a piece of content and rewards the
    /// creator.
    pub fn view_content(&mut self, player: &str, content_id: &str) -> (result: Result<
        (),
        ActionError,
    >)
        requires
            old(self).wf(),
        ensures
            final(self).wf(),
            settles(
                old(self)@,
                old(self)@.view_content(player@, content_id@),
                final(self)@,
                result,
            ),
    {
        let i = match self.content.position(content_id) {
            Some(i) => i,
            None => {
                return Err(ActionError::NotFound { entity: Entity::Content });
            },
        };
        let ghost before = *self;
        proof {
            before.content.lemma_entry(i as int);
            assert(before@.content.contains(content_id@));
        }
        let reward = self.get_mining_reward(player);
        let creator = self.content.values[i].creator.clone();
        self.content.values[i].add_view();
        proof {
            lemma_content_changed(&before, self, i as int);
        }
        self.pay_creator(creator.as_str(), reward);
        Ok(())
    }

    /// Records a post published by `player` against the posting fee.
    pub fn post_content(&mut self, player: &str, post_id: String, caption: String) -> (result:
        Result<(), ActionError>)
        requires
            old(self).wf(),
        ensures
            final(self).wf(),
            settles(
                old(self)@,
                old(self)@.post_content(player@, post_id@, caption@),
                final(self)@,
                result,
            ),
    {
        if !self.full_gamefi_runtime.can_pay(player, POST_COST) {
            return Err(ActionError::InsufficientFunds);
        }
        let ghost before = self@;
        self.full_gamefi_runtime.debit(player, POST_COST);
        let record = PostRecord::new(player.to_owned(), caption);
        self.posts.insert(post_id, record);
        proof {
            assert forall|id: Seq<char>| #[trigger]
                self@.posts.contains(id) implies self@.posts.get(id).wf() by {
                if id != post_id@ {
                    assert(before.posts.contains(id));
                }
            }
        }
        self.add_reputation(player, 5);
        Ok(())
    }

    /// Adds the pools' shares of a paid action of the given cost to the
    /// platform pool and the community pool.
    pub fn fund_pools(&mut self, cost: u64)
        requires
            old(self).wf(),
        ensures
            final(self).wf(),
            final(self)@ == old(self)@.fund_pools(cost),
    {
        let split = split_revenue(cost);
        self.platform_pool = self.platform_pool.saturating_add(split.platform);
        self.community_pool = self.community_pool.saturating_add(split.community);
    }

    /// Records a like of `player` on a post, paid or not, and rewards the
    /// creator.
    pub fn like_post(&mut self, player: &str, post_id: &str, paid: bool) -> (result: Result<
        (),
        ActionError,
    >)
        requires
            old(self).wf(),
        ensures
            final(self).wf(),
            settles(
                old(self)@,
                old(self)@.like_post(player@, post_id@, paid),
                final(self)@,
                result,
            ),
    {
        let i = match self.posts.position(post_id) {
            Some(i) => i,
            None => {
                return Err(ActionError::NotFound { entity: Entity::Post });
            },
        };
        if contains_text(&self.posts.values[i].likes, player) {
            return Err(ActionError::AlreadyDone { action: OnceOnly::Like });
        }
        if paid && !self.full_gamefi_runtime.can_pay(player, PAID_LIKE_COST) {
            return Err(ActionError::InsufficientFunds);
        }
        let ghost before = *self;
        proof {
            before.posts.lemma_entry(i as int);
            assert(before@.posts.contains(post_id@));
        }
        let creator = self.posts.values[i].creator.clone();
        self.posts.values[i].add_like(player.to_owned());
        proof {
            lemma_post_changed(&before, self, i as int);
        }
        if paid {
            self.full_gamefi_runtime.debit(player, PAID_LIKE_COST);
            self.fund_pools(PAID_LIKE_COST);
            let split = split_revenue(PAID_LIKE_COST);
            self.pay_creator(creator.as_str(), split.creator);
            self.add_reputation(player, 2);
        } else {
            self.pay_creator(creator.as_str(), LIKE_REWARD);
            self.add_reputation(player, 1);
        }
        Ok(())
    }

    /// Records a comment of `player` on a post and rewards the creator.
    pub fn comment_post(&mut self, player: &str, post_id: &str, comment: String) -> (result: Result<
        (),
        ActionError,
    >)
        requires
            old(self).wf(),
        ensures
            final(self).wf(),
            settles(
                old(self)@,
                old(self)@.comment_post(player@, post_id@, comment@),
                final(self)@,
                result,
            ),
    {
        let i = match self.posts.position(post_id) {
            Some(i) => i,
            None => {
                return Err(ActionError::NotFound { entity: Entity::Post });
            },
        };
        let ghost before = *self;
        proof {
            before.posts.lemma_entry(i as int);
            assert(before@.posts.contains(post_id@));
        }
        let creator = self.posts.values[i].creator.clone();
        self.posts.values[i].add_comment(comment);
        proof {
            lemma_post_changed(&before, self, i as int);
        }
        self.pay_creator(creator.as_str(), LIKE_REWARD);
        self.add_reputation(player, 1);
        Ok(())
    }

    /// Boosts a post of `player` by `tokens` display units.
    pub fn boost_post(&mut self, player: &str, post_id: &str, tokens: u64) -> (result: Result<
        (),
        ActionError,
    >)
        requires
            old(self).wf(),
        ensures
            final(self).wf(),
            settles(
                old(self)@,
                old(self)@.boost_post(player@, post_id@, tokens),
                final(self)@,
                result,
            ),
    {
        if tokens < 1 || tokens > 2 {
            return Err(ActionError::InvalidRange { field: RangeField::BoostCost });
        }
        let cost: u64 = tokens * SCALE;
        let found = self.posts.position(post_id);
        match found {
            Some(i) => {
                if !self.posts.values[i].creator.as_str().eq(player) {
                    return Err(ActionError::PermissionDenied);
                }
            },
            None => {},
        }
        if !self.full_gamefi_runtime.can_pay(player, cost) {
            return Err(ActionError::InsufficientFunds);
        }
        let i = match found {
            Some(i) => i,
            None => {
                return Err(ActionError::NotFound { entity: Entity::Post });
            },
        };
        let ghost before = *self;
        proof {
            before.posts.lemma_entry(i as int);
            assert(before@.posts.contains(post_id@));
        }
        self.posts.values[i].add_boost(tokens);
        proof {
            lemma_post_changed(&before, self, i as int);
        }
        self.full_gamefi_runtime.debit(player, cost);
        let split = split_revenue(cost);
        self.pay_creator(player, split.creator);
        self.fund_pools(cost);
        Ok(())
    }

    /// Rewards the creator of every post, then of every piece of content,
    /// within the daily cap, with the tiered reward for its reputation.
    pub fn distribute_time_rewards(&mut self)
        requires
            old(self).wf(),
        ensures
            final(self).wf(),
            final(self)@ == old(self)@.distribute_time_rewards(),
    {
        let ghost start = self@;
        let ghost posters = start.post_creators();
        let mut i: usize = 0;
        while i < self.posts.keys.len()
            invariant
                self.wf(),
                i <= self.posts.keys@.len(),
                self@.posts == start.posts,
                self@.content == start.content,
                self@.reputations == start.reputations,
                self@.total_users == start.total_users,
                posters == start.post_creators(),
                self@ == start.pay_each(start, posters, i as nat),
            decreases self.posts.keys@.len() - i,
        {
            proof {
                self.posts.lemma_entry(i as int);
            }
            let creator = self.posts.values[i].creator.clone();
            let reward = self.get_mining_reward(creator.as_str());
            self.pay_creator(creator.as_str(), reward);
            i += 1;
        }
        let ghost swept = self@;
        let ghost uploaders = start.content_creators();
        let mut k: usize = 0;
        while k < self.content.keys.len()
            invariant
                self.wf(),
                k <= self.content.keys@.len(),
                self@.content == start.content,
                self@.reputations == start.reputations,
                self@.total_users == start.total_users,
                uploaders == start.content_creators(),
                self@ == swept.pay_each(start, uploaders, k as nat),
            decreases self.content.keys@.len() - k,
        {
            proof {
                self.content.lemma_entry(k as int);
            }
            let creator = self.content.values[k].creator.clone();
            let reward = self.get_mining_reward(creator.as_str());
            self.pay_creator(creator.as_str(), reward);
            k += 1;
        }
    }

    /// Lists the posts in the order in which they were first published.
    pub fn get_posts(&self) -> (rows: Vec<PostRow>)
        requires
            self.wf(),
        ensures
            post_row_views(rows@) == self@.post_rows(),
    {
        let mut rows: Vec<PostRow> = Vec::new();
        let mut i: usize = 0;
        while i < self.posts.keys.len()
            invariant
                self.wf(),
                i <= self.posts.keys@.len(),
                rows@.len() == i,
                forall|j: int|
                    0 <= j < i ==> (#[trigger] post_row_views(rows@)[j]) == self@.post_rows()[j],
            decreases self.posts.keys@.len() - i,
        {
            proof {
                self.posts.lemma_entry(i as int);
            }
            let ghost earlier = rows@;
            let record = &self.posts.values[i];
            let row: PostRow = (
                self.posts.keys[i].clone(),
                record.creator.clone(),
                record.caption.clone(),
                record.likes.len() as u64,
                record.boosts,
            );
            rows.push(row);
            proof {
                assert forall|j: int| 0 <= j < i + 1 implies (#[trigger] post_row_views(rows@)[j])
                    == self@.post_rows()[j] by {
                    if j < i {
                        assert(post_row_views(earlier)[j] == self@.post_rows()[j]);
                    }
                }
            }
            i += 1;
        }
        proof {
            assert(post_row_views(rows@) =~= self@.post_rows());
        }
        rows
    }

    /// Lists the content in the order in which it was first uploaded.
    pub fn get_videos(&self) -> (rows: Vec<VideoRow>)
        requires
            self.wf(),
        ensures
            video_row_views(rows@) == self@.video_rows(),
    {
        let mut rows: Vec<VideoRow> = Vec::new();
        let mut i: usize = 0;
        while i < self.content.keys.len()
            invariant
                self.wf(),
                i <= self.content.keys@.len(),
                rows@.len() == i,
                forall|j: int|
                    0 <= j < i ==> (#[trigger] video_row_views(rows@)[j]) == self@.video_rows()[j],
            decreases self.content.keys@.len() - i,
        {
            proof {
                self.content.lemma_entry(i as int);
            }
            let ghost earlier = rows@;
            let record = &self.content.values[i];
            let row: VideoRow = (
                self.content.keys[i].clone(),
                record.creator.clone(),
                record.title.clone(),
                record.views,
            );
            rows.push(row);
            proof {
                assert forall|j: int| 0 <= j < i + 1 implies (#[trigger] video_row_views(rows@)[j])
                    == self@.video_rows()[j] by {
                    if j < i {
                        assert(video_row_views(earlier)[j] == self@.video_rows()[j]);
                    }
                }
            }
            i += 1;
        }
        proof {
            assert(video_row_views(rows@) =~= self@.video_rows());
        }
        rows
    }

    /// Lists the items for sale, seller by seller in the order in which the
    /// sellers first listed anything. A listing whose position no longer
    /// lies in the seller's inventory is left out.
    pub fn get_nft_listings(&self) -> (rows: Vec<ListingRow>)
        requires
            self.wf(),
        ensures
            listing_row_views(rows@) == self@.listing_rows(),
    {
        let mut rows: Vec<ListingRow> = Vec::new();
        let mut s: usize = 0;
        proof {
            assert(listing_row_views(rows@) =~= self@.listing_rows_upto(0));
        }
        while s < self.nft_marketplace.keys.len()
            invariant
                self.wf(),
                s <= self.nft_marketplace.keys@.len(),
                listing_row_views(rows@) == self@.listing_rows_upto(s as nat),
            decreases self.nft_marketplace.keys@.len() - s,
        {
            proof {
                self.nft_marketplace.lemma_entry(s as int);
            }
            let ghost before_rows = listing_row_views(rows@);
            let ghost seller = self.nft_marketplace.keys@[s as int]@;
            let ghost listings = self.nft_marketplace.values@[s as int]@;
            let mut k: usize = 0;
            proof {
                assert(before_rows + self@.seller_rows(seller, listings, 0) =~= before_rows);
            }
            while k < self.nft_marketplace.values[s].len()
                invariant
                    self.wf(),
                    s < self.nft_marketplace.keys@.len(),
                    seller == self.nft_marketplace.keys@[s as int]@,
                    listings == self.nft_marketplace.values@[s as int]@,
                    k <= listings.len(),
                    listing_row_views(rows@) == before_rows + self@.seller_rows(
                        seller,
                        listings,
                        k as nat,
                    ),
                decreases listings.len() - k,
            {
                let listing = self.nft_marketplace.values[s][k];
                let ghost earlier = rows@;
                match self.full_gamefi_runtime.item_name(
                    self.nft_marketplace.keys[s].as_str(),
                    listing.0 as usize,
                ) {
                    Some(name) => {
                        let row: ListingRow = (
                            self.nft_marketplace.keys[s].clone(),
                            listing.0,
                            name,
                            listing.1,
                        );
                        rows.push(row);
                        proof {
                            assert(listing_row_views(rows@) =~= listing_row_views(earlier).push(
                                (row.0@, row.1, row.2@, row.3),
                            ));
                            assert(listing_row_views(rows@) =~= before_rows + self@.seller_rows(
                                seller,
                                listings,
                                (k + 1) as nat,
                            ));
                        }
                    },
                    None => {},
                }
                k += 1;
            }
            s += 1;
        }
        rows
    }

    /// Lists the token balances of `player`, each written out in decimal,
    /// in the order in which the player first held each token.
    pub fn get_player(&self, player: &str) -> (data: Vec<(String, String)>)
        requires
            self.wf(),
        ensures
            data_views(data@) == self@.player_data(player@),
    {
        let mut data: Vec<(String, String)> = Vec::new();
        match self.gamefi_runtime.players.position(player) {
            None => {
                proof {
                    assert(data_views(data@) =~= self@.player_data(player@));
                }
            },
            Some(p) => {
                let tokens = &self.gamefi_runtime.players.values[p];
                let mut i: usize = 0;
                while i < tokens.keys.len()
                    invariant
                        tokens.wf(),
                        tokens@ == self@.gamefi.tokens_of(player@),
                        i <= tokens.keys@.len(),
                        data@.len() == i,
                        forall|j: int|
                            0 <= j < i ==> (#[trigger] data_views(data@)[j]) == self@.player_data(
                                player@,
                            )[j],
                    decreases tokens.keys@.len() - i,
                {
                    proof {
                        tokens.lemma_entry(i as int);
                    }
                    let ghost earlier = data@;
                    let row = (tokens.keys[i].clone(), decimal_string(tokens.values[i]));
                    data.push(row);
                    proof {
                        assert forall|j: int| 0 <= j < i + 1 implies (#[trigger] data_views(
                            data@,
                        )[j]) == self@.player_data(player@)[j] by {
                            if j < i {
                                assert(data_views(earlier)[j] == self@.player_data(player@)[j]);
                            }
                        }
                    }
                    i += 1;
                }
                proof {
                    assert(data_views(data@) =~= self@.player_data(player@));
                }
            },
        }
        data
    }

    /// Lists the counters of `player`.
    pub fn get_content_stats(&self, player: &str) -> (stats: Vec<(String, u64)>)
        requires
            self.wf(),
        ensures
            stat_views(stats@) == self@.player_stats(player@),
    {
        let mut stats: Vec<(String, u64)> = Vec::new();
        match self.gamefi_runtime.content_stats.position(player) {
            None => {
                proof {
                    assert(stat_views(stats@) =~= self@.player_stats(player@));
                }
            },
            Some(p) => {
                let counters = &self.gamefi_runtime.content_stats.values[p];
                let mut i: usize = 0;
                while i < counters.keys.len()
                    invariant
                        counters.wf(),
                        counters@ == self@.gamefi.content_stats.get_or(player@, TableView::empty()),
                        i <= counters.keys@.len(),
                        stats@.len() == i,
                        forall|j: int|
                            0 <= j < i ==> (#[trigger] stat_views(stats@)[j]) == self@.player_stats(
                                player@,
                            )[j],
                    decreases counters.keys@.len() - i,
                {
                    proof {
                        counters.lemma_entry(i as int);
                    }
                    let ghost earlier = stats@;
                    let row = (counters.keys[i].clone(), counters.values[i]);
                    stats.push(row);
                    proof {
                        assert forall|j: int| 0 <= j < i + 1 implies (#[trigger] stat_views(
                            stats@,
                        )[j]) == self@.player_stats(player@)[j] by {
                            if j < i {
                                assert(stat_views(earlier)[j] == self@.player_stats(player@)[j]);
                            }
                        }
                    }
                    i += 1;
                }
                proof {
                    assert(stat_views(stats@) =~= self@.player_stats(player@));
                }
            },
        }
        stats
    }

    /// Turns the result of an action that may be rejected into its answer.
    fn answer(result: Result<(), ActionError>, success: ActionResult) -> (answer: ActionResult)
        ensures
            answer@ == match result {
                Ok(_) => success@,
                Err(error) => ActionResultView::Error { message: error.text() },
            },
    {
        match result {
            Ok(_) => success,
            Err(error) => ActionResult::rejected(error),
        }
    }

    /// Answers a token request.
    fn on_request_tokens(
        &mut self,
        player: String,
        token: String,
        draws: &Draws,
    ) -> (result: ActionResult)
        requires
            old(self).wf(),
        ensures
            final(self).wf(),
            (final(self)@, result@) == old(self)@.step(
                ActionView::RequestTokens { player: player@, token: token@ },
                draws@,
            ),
    {
        let amount = self.request_tokens(player.as_str(), token.as_str());
        ActionResult::TokensRequested { player, token, amount }
    }

    /// Answers a balance query.
    fn on_get_balance(&self, player: String, token: String, draws: &Draws) -> (result: ActionResult)
        requires
            self.wf(),
        ensures
            (self@, result@) == self@.step(
                ActionView::GetBalance { player: player@, token: token@ },
                draws@,
            ),
    {
        let balance = self.gamefi_runtime.balance(player.as_str(), token.as_str());
        ActionResult::Balance { player, token, balance }
    }

    /// Answers a query for a player's tokens.
    fn on_get_player(&self, player: String, draws: &Draws) -> (result: ActionResult)
        requires
            self.wf(),
        ensures
            (self@, result@) == self@.step(ActionView::GetPlayer { player: player@ }, draws@),
    {
        let data = self.get_player(player.as_str());
        ActionResult::Player { player, data }
    }

    /// Answers a query for a player's counters.
    fn on_get_content_stats(&self, player: String, draws: &Draws) -> (result: ActionResult)
        requires
            self.wf(),
        ensures
            (self@, result@) == self@.step(ActionView::GetContentStats { player: player@ }, draws@),
    {
        let stats = self.get_content_stats(player.as_str());
        ActionResult::ContentStats { player, stats }
    }

    /// Lets every player perform the activity picked for it.
    fn on_simulate_activity(&mut self, draws: &Draws) -> (result: ActionResult)
        requires
            old(self).wf(),
        ensures
            final(self).wf(),
            (final(self)@, result@) == old(self)@.step(ActionView::SimulateActivity, draws@),
    {
        self.full_gamefi_runtime.simulate_player_activity_with(&draws.picks);
        ActionResult::ActivitySimulated
    }

    /// Attempts to mine a block.
    fn on_mine_block(&mut self, miner: String, index: u64, draws: &Draws) -> (result: ActionResult)
        requires
            old(self).wf(),
        ensures
            final(self).wf(),
            (final(self)@, result@) == old(self)@.step(
                ActionView::MineBlock { miner: miner@, index },
                draws@,
            ),
    {
        let block = self.full_gamefi_runtime.mine_block_with(
            "previous_hash",
            miner.clone(),
            index,
            draws.nonce,
            draws.computed_hash,
            draws.timestamp,
            &draws.flips,
        );
        ActionResult::BlockMined { miner, block }
    }

    /// Records an activity.
    fn on_record_activity(
        &mut self,
        player: String,
        activity_type: u32,
        draws: &Draws,
    ) -> (result: ActionResult)
        requires
            old(self).wf(),
        ensures
            final(self).wf(),
            (final(self)@, result@) == old(self)@.step(
                ActionView::RecordActivity { player: player@, activity_type },
                draws@,
            ),
    {
        let bonus = draws.flips.len() > 0 && draws.flips[0];
        self.full_gamefi_runtime.record_activity_with(player.as_str(), activity_type, bonus);
        let points: u64 = match activity_type {
            1 => 10,
            2 => 15,
            3 => 5,
            4 => 20,
            _ => 0,
        };
        ActionResult::ActivityRecorded { player, activity_type, points }
    }

    /// Fights a battle and names the winner.
    fn on_battle(
        &mut self,
        player1: String,
        player2: String,
        draws: &Draws,
    ) -> (result: ActionResult)
        requires
            old(self).wf(),
        ensures
            final(self).wf(),
            (final(self)@, result@) == old(self)@.step(
                ActionView::Battle { player1: player1@, player2: player2@ },
                draws@,
            ),
    {
        let trophy = draws.flips.len() > 0 && draws.flips[0];
        let first_won = self.full_gamefi_runtime.battle_with(
            player1.as_str(),
            player2.as_str(),
            draws.roll1,
            draws.roll2,
            trophy,
        );
        if first_won {
            ActionResult::BattleResult { winner: player1, loser: player2 }
        } else {
            ActionResult::BattleResult { winner: player2, loser: player1 }
        }
    }

    /// Trades two items.
    fn on_trade_items(
        &mut self,
        player1: String,
        player1_item_index: u32,
        player2: String,
        player2_item_index: u32,
        draws: &Draws,
    ) -> (result: ActionResult)
        requires
            old(self).wf(),
        ensures
            final(self).wf(),
            (final(self)@, result@) == old(self)@.step(
                ActionView::TradeItems {
                    player1: player1@,
                    player1_item_index,
                    player2: player2@,
                    player2_item_index,
                },
                draws@,
            ),
    {
        let bonus1 = draws.flips.len() > 0 && draws.flips[0];
        let bonus2 = draws.flips.len() > 1 && draws.flips[1];
        let success = self.full_gamefi_runtime.trade_items_with(
            player1.as_str(),
            player1_item_index as usize,
            player2.as_str(),
            player2_item_index as usize,
            bonus1,
            bonus2,
        );
        ActionResult::ItemsTraded { player1, player2, success }
    }

    /// Shares out the activity reward.
    fn on_distribute_mtoshi_rewards(&mut self, draws: &Draws) -> (result: ActionResult)
        requires
            old(self).wf(),
        ensures
            final(self).wf(),
            (final(self)@, result@) == old(self)@.step(ActionView::DistributeMtoshiRewards, draws@),
    {
        self.full_gamefi_runtime.distribute_mtoshi_rewards();
        ActionResult::MtoshiDistributed { total_reward: ACTIVITY_POOL_REWARD }
    }

    /// Answers with the leaderboard.
    fn on_show_leaderboard(&self, draws: &Draws) -> (result: ActionResult)
        requires
            self.wf(),
        ensures
            (self@, result@) == self@.step(ActionView::ShowLeaderboard, draws@),
    {
        let players = self.full_gamefi_runtime.leaderboard();
        ActionResult::Leaderboard { players }
    }

    /// Answers a query for a spendable balance.
    fn on_get_mtoshi_balance(&self, player: String, draws: &Draws) -> (result: ActionResult)
        requires
            self.wf(),
        ensures
            (self@, result@) == self@.step(
                ActionView::GetMtoshiBalance { player: player@ },
                draws@,
            ),
    {
        let balance = match self.full_gamefi_runtime.get_mtoshi_balance(player.as_str()) {
            Some(balance) => balance,
            None => 0,
        };
        ActionResult::MtoshiBalance { player, balance }
    }

    /// Mints an item.
    fn on_mint_nft(
        &mut self,
        player: String,
        name: String,
        value: u64,
        draws: &Draws,
    ) -> (result: ActionResult)
        requires
            old(self).wf(),
        ensures
            final(self).wf(),
            (final(self)@, result@) == old(self)@.step(
                ActionView::MintNft { player: player@, name: name@, value },
                draws@,
            ),
    {
        let result = self.mint_nft(player.as_str(), name.clone(), value);
        Self::answer(result, ActionResult::NftMinted { player, name, value })
    }

    /// Buys a listed item.
    fn on_buy_nft(
        &mut self,
        buyer: String,
        seller: String,
        nft_index: u32,
        draws: &Draws,
    ) -> (result: ActionResult)
        requires
            old(self).wf(),
        ensures
            final(self).wf(),
            (final(self)@, result@) == old(self)@.step(
                ActionView::BuyNft { buyer: buyer@, seller: seller@, nft_index },
                draws@,
            ),
    {
        let result = self.buy_nft(buyer.as_str(), seller.as_str(), nft_index);
        Self::answer(result, ActionResult::NftBought { buyer, seller, nft_index })
    }

    /// Lists an item for sale.
    fn on_sell_nft(
        &mut self,
        seller: String,
        nft_index: u32,
        price: u64,
        draws: &Draws,
    ) -> (result: ActionResult)
        requires
            old(self).wf(),
        ensures
            final(self).wf(),
            (final(self)@, result@) == old(self)@.step(
                ActionView::SellNft { seller: seller@, nft_index, price },
                draws@,
            ),
    {
        let result = self.sell_nft(seller.as_str(), nft_index, price);
        Self::answer(result, ActionResult::NftListed { seller, nft_index, price })
    }

    /// Records an upload.
    fn on_upload_content(
        &mut self,
        player: String,
        content_id: String,
        title: String,
        draws: &Draws,
    ) -> (result: ActionResult)
        requires
            old(self).wf(),
        ensures
            final(self).wf(),
            (final(self)@, result@) == old(self)@.step(
                ActionView::UploadContent {
                    player: player@,
                    content_id: content_id@,
                    title: title@,
                },
                draws@,
            ),
    {
        let result = self.upload_content(player.as_str(), content_id.clone(), title);
        Self::answer(result, ActionResult::ContentUploaded { player, content_id })
    }

    /// Records a like on content.
    fn on_like_content(
        &mut self,
        player: String,
        content_id: String,
        draws: &Draws,
    ) -> (result: ActionResult)
        requires
            old(self).wf(),
        ensures
            final(self).wf(),
            (final(self)@, result@) == old(self)@.step(
                ActionView::LikeContent { player: player@, content_id: content_id@ },
                draws@,
            ),
    {
        let result = self.like_content(player.as_str(), content_id.as_str());
        Self::answer(result, ActionResult::ContentLiked { player, content_id })
    }

    /// Records a comment on content.
    fn on_comment_content(
        &mut self,
        player: String,
        content_id: String,
        comment: String,
        draws: &Draws,
    ) -> (result: ActionResult)
        requires
            old(self).wf(),
        ensures
            final(self).wf(),
            (final(self)@, result@) == old(self)@.step(
                ActionView::CommentContent {
                    player: player@,
                    content_id: content_id@,
                    comment: comment@,
                },
                draws@,
            ),
    {
        let result = self.comment_content(player.as_str(), content_id.as_str(), comment);
        Self::answer(result, ActionResult::ContentCommented { player, content_id })
    }

    /// Counts a view of content.
    fn on_view_content(
        &mut self,
        player: String,
        content_id: String,
        draws: &Draws,
    ) -> (result: ActionResult)
        requires
            old(self).wf(),
        ensures
            final(self).wf(),
            (final(self)@, result@) == old(self)@.step(
                ActionView::ViewContent { player: player@, content_id: content_id@ },
                draws@,
            ),
    {
        let result = self.view_content(player.as_str(), content_id.as_str());
        Self::answer(result, ActionResult::ContentViewed { player, content_id })
    }

    /// Records a post.
    fn on_post_content(
        &mut self,
        player: String,
        post_id: String,
        caption: String,
        draws: &Draws,
    ) -> (result: ActionResult)
        requires
            old(self).wf(),
        ensures
            final(self).wf(),
            (final(self)@, result@) == old(self)@.step(
                ActionView::PostContent { player: player@, post_id: post_id@, caption: caption@ },
                draws@,
            ),
    {
        let result = self.post_content(player.as_str(), post_id.clone(), caption);
        Self::answer(result, ActionResult::ContentPosted { player, post_id })
    }

    /// Records a like on a post.
    fn on_like_post(
        &mut self,
        player: String,
        post_id: String,
        paid: bool,
        draws: &Draws,
    ) -> (result: ActionResult)
        requires
            old(self).wf(),
        ensures
            final(self).wf(),
            (final(self)@, result@) == old(self)@.step(
                ActionView::LikePost { player: player@, post_id: post_id@, paid },
                draws@,
            ),
    {
        let result = self.like_post(player.as_str(), post_id.as_str(), paid);
        Self::answer(result, ActionResult::PostLiked { player, post_id, paid })
    }

    /// Records a comment on a post.
    fn on_comment_post(
        &mut self,
        player: String,
        post_id: String,
        comment: String,
        draws: &Draws,
    ) -> (result: ActionResult)
        requires
            old(self).wf(),
        ensures
            final(self).wf(),
            (final(self)@, result@) == old(self)@.step(
                ActionView::CommentPost { player: player@, post_id: post_id@, comment: comment@ },
                draws@,
            ),
    {
        let result = self.comment_post(player.as_str(), post_id.as_str(), comment);
        Self::answer(result, ActionResult::PostCommented { player, post_id })
    }

    /// Boosts a post.
    fn on_boost_post(
        &mut self,
        player: String,
        post_id: String,
        tokens: u64,
        draws: &Draws,
    ) -> (result: ActionResult)
        requires
            old(self).wf(),
        ensures
            final(self).wf(),
            (final(self)@, result@) == old(self)@.step(
                ActionView::BoostPost { player: player@, post_id: post_id@, tokens },
                draws@,
            ),
    {
        let result = self.boost_post(player.as_str(), post_id.as_str(), tokens);
        Self::answer(result, ActionResult::PostBoosted { player, post_id, tokens })
    }

    /// Answers with the list of posts.
    fn on_get_posts(&self, draws: &Draws) -> (result: ActionResult)
        requires
            self.wf(),
        ensures
            (self@, result@) == self@.step(ActionView::GetPosts, draws@),
    {
        let posts = self.get_posts();
        ActionResult::Posts { posts }
    }

    /// Answers with the list of videos.
    fn on_get_videos(&self, draws: &Draws) -> (result: ActionResult)
        requires
            self.wf(),
        ensures
            (self@, result@) == self@.step(ActionView::GetVideos, draws@),
    {
        let videos = self.get_videos();
        ActionResult::Videos { videos }
    }

    /// Answers with the list of items for sale.
    fn on_get_nft_listings(&self, draws: &Draws) -> (result: ActionResult)
        requires
            self.wf(),
        ensures
            (self@, result@) == self@.step(ActionView::GetNftListings, draws@),
    {
        let listings = self.get_nft_listings();
        ActionResult::NftListings { listings }
    }

    /// Applies one action to the ledger with the given draws and returns its
    /// answer.
    pub fn process_action_with(&mut self, action: Action, draws: &Draws) -> (result: ActionResult)
        requires
            old(self).wf(),
        ensures
            final(self).wf(),
            (final(self)@, result@) == old(self)@.step(action@, draws@),
    {
        match action {
            Action::RequestTokens { player, token } => self.on_request_tokens(player, token, draws),
            Action::GetBalance { player, token } => self.on_get_balance(player, token, draws),
            Action::GetPlayer { player } => self.on_get_player(player, draws),
            Action::GetContentStats { player } => self.on_get_content_stats(player, draws),
            Action::SimulateActivity => self.on_simulate_activity(draws),
            Action::MineBlock { miner, index } => self.on_mine_block(miner, index, draws),
            Action::RecordActivity { player, activity_type } => {
                self.on_record_activity(player, activity_type, draws)
            },
            Action::Battle { player1, player2 } => self.on_battle(player1, player2, draws),
            Action::TradeItems { player1, player1_item_index, player2, player2_item_index } => {
                self.on_trade_items(player1, player1_item_index, player2, player2_item_index, draws)
            },
            Action::DistributeMtoshiRewards => self.on_distribute_mtoshi_rewards(draws),
            Action::ShowLeaderboard => self.on_show_leaderboard(draws),
            Action::GetMtoshiBalance { player } => self.on_get_mtoshi_balance(player, draws),
            Action::MintNft { player, name, value } => self.on_mint_nft(player, name, value, draws),
            Action::BuyNft { buyer, seller, nft_index } => {
                self.on_buy_nft(buyer, seller, nft_index, draws)
            },
            Action::SellNft { seller, nft_index, price } => {
                self.on_sell_nft(seller, nft_index, price, draws)
            },
            Action::UploadContent { player, content_id, title } => {
                self.on_upload_content(player, content_id, title, draws)
            },
            Action::LikeContent { player, content_id } => {
                self.on_like_content(player, content_id, draws)
            },
            Action::CommentContent { player, content_id, comment } => {
                self.on_comment_content(player, content_id, comment, draws)
            },
            Action::ViewContent { player, content_id } => {
                self.on_view_content(player, content_id, draws)
            },
            Action::PostContent { player, post_id, caption } => {
                self.on_post_content(player, post_id, caption, draws)
            },
            Action::LikePost { player, post_id, paid } => {
                self.on_like_post(player, post_id, paid, draws)
            },
            Action::CommentPost { player, post_id, comment } => {
                self.on_comment_post(player, post_id, comment, draws)
            },
            Action::BoostPost { player, post_id, tokens } => {
                self.on_boost_post(player, post_id, tokens, draws)
            },
            Action::GetPosts => self.on_get_posts(draws),
            Action::GetVideos => self.on_get_videos(draws),
            Action::GetNftListings => self.on_get_nft_listings(draws),
        }
    }

    /// Draws what chance has to decide for `action` from the runtime's
    /// generator and the clock. The ledger itself stays as it was.
    pub fn draw_for(&mut self, action: &Action) -> (draws: Draws)
        requires
            old(self).wf(),
        ensures
            final(self).wf(),
            final(self)@ == old(self)@,
            draws@.fair(),
            action@ is SimulateActivity ==> draws@.picks.len() == old(self)@.runtime.players.len(),
    {
        let mut draws = Draws::none();
        proof {
            self.full_gamefi_runtime.players.lemma_view_wf();
        }
        match action {
            Action::SimulateActivity => {
                draws.picks = self.full_gamefi_runtime.draw_picks();
            },
            Action::MineBlock { .. } => {
                draws.nonce = draw_u64(&mut self.full_gamefi_runtime.dice);
                draws.computed_hash = draw_u64(&mut self.full_gamefi_runtime.dice);
                draws.timestamp = unix_seconds();
                if draws.computed_hash % 1000 < 100 {
                    draws.flips = self.full_gamefi_runtime.draw_gems();
                }
            },
            Action::RecordActivity { activity_type, .. } => {
                let bonus = self.full_gamefi_runtime.draw_item_chance(*activity_type);
                draws.flips.push(bonus);
            },
            Action::Battle { .. } => {
                let (roll1, roll2, trophy) = self.full_gamefi_runtime.draw_battle();
                draws.roll1 = roll1;
                draws.roll2 = roll2;
                draws.flips.push(trophy);
            },
            Action::TradeItems { .. } => {
                let bonus1 = self.full_gamefi_runtime.draw_item_chance(3);
                let bonus2 = self.full_gamefi_runtime.draw_item_chance(3);
                draws.flips.push(bonus1);
                draws.flips.push(bonus2);
            },
            _ => {},
        }
        draws
    }

    /// Applies one action to the ledger and returns its answer. Whatever
    /// chance has to decide is drawn from the runtime's generator: the
    /// ledger and the answer are those of the action for some fair draws.
    pub fn process_action(&mut self, action: Action) -> (result: ActionResult)
        requires
            old(self).wf(),
        ensures
            final(self).wf(),
            exists|draws: DrawsView|
                draws.fair() && (action@ is SimulateActivity ==> draws.picks.len()
                    == old(self)@.runtime.players.len()) && (final(self)@, result@)
                    == #[trigger] old(self)@.step(action@, draws),
    {
        let draws = self.draw_for(&action);
        self.process_action_with(action, &draws)
    }

    /// Lets every player perform an activity picked at random.
    pub fn simulate_player_activity(&mut self)
        requires
            old(self).wf(),
        ensures
            final(self).wf(),
            exists|picks: Seq<(u32, bool)>|
                picks.len() == old(self)@.runtime.players.len() && (forall|i: int|
                    0 <= i < picks.len() ==> (#[trigger] picks[i]).0 < 4) && final(self)@
                    == #[trigger] old(self)@.with_runtime(
                    old(self)@.runtime.simulate_player_activity(picks),
                ),
    {
        let ghost before = self@;
        self.full_gamefi_runtime.simulate_player_activity();
        proof {
            let picks = choose|picks: Seq<(u32, bool)>|
                picks.len() == before.runtime.players.len() && (forall|i: int|
                    0 <= i < picks.len() ==> (#[trigger] picks[i]).0 < 4) && self@.runtime
                    == #[trigger] before.runtime.simulate_player_activity(picks);
            assert(self@ == before.with_runtime(before.runtime.simulate_player_activity(picks)));
        }
    }

    /// Lists every player, best first: by higher level, then by more
    /// experience, then by having been seen first.
    pub fn show_leaderboard(&self) -> (rows: Vec<LeaderboardRow>)
        requires
            self.wf(),
        ensures
            exists|order: Seq<int>| #[trigger]
                is_ranking(self@.runtime.leaderboard(), order) && leaderboard_views(rows@)
                    == ranked(self@.runtime.leaderboard(), order),
    {
        self.full_gamefi_runtime.show_leaderboard()
    }
}

} // verus!
