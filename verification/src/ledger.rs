//! The ledger as a mathematical value, the rule of each action, and the
//! laws that follow from the rules.

use crate::action::{ActionError, ActionResultView, ActionView, Entity, OnceOnly, RangeField};
use crate::draws::DrawsView;
use crate::economy::{
    cap_grant, creator_share, lemma_paid_split_conserves, mining_reward_of, pool_share, sat_add,
    ACTIVITY_POOL_REWARD, BOOST_MAX_COST, BOOST_MIN_COST, COMMENT_REWARD, DAILY_CEILING,
    LIKE_REWARD, MINT_COST, PAID_LIKE_COST, POST_COST, SCALE, TOKEN_GRANT, UPLOAD_COST,
};
use crate::player::ItemView;
use crate::runtime::rules::{activity_points, draw_at, RuntimeView};
use crate::social::{ContentView, PostView};
use crate::table::TableView;
use crate::text::digits;
use crate::tokens::GamefiView;
use vstd::prelude::*;

verus! {

/// The ledger as a mathematical value.
pub struct LedgerView {
    pub gamefi: GamefiView,
    pub runtime: RuntimeView,
    pub marketplace: TableView<Seq<(u32, u64)>>,
    pub content: TableView<ContentView>,
    pub posts: TableView<PostView>,
    pub reputations: TableView<u64>,
    pub daily_rewards: TableView<u64>,
    pub total_users: u64,
    pub platform_pool: u64,
    pub community_pool: u64,
}

/// The price of the first listing for the item at `nft_index`, if there is
/// one.
pub open spec fn listed_price(listings: Seq<(u32, u64)>, nft_index: u32) -> Option<u64>
    decreases listings.len(),
{
    if listings.len() == 0 {
        None
    } else if listings[0].0 == nft_index {
        Some(listings[0].1)
    } else {
        listed_price(listings.drop_first(), nft_index)
    }
}

/// The listings without those for the item at `nft_index`, in order.
pub open spec fn unlisted(listings: Seq<(u32, u64)>, nft_index: u32) -> Seq<(u32, u64)>
    decreases listings.len(),
{
    if listings.len() == 0 {
        listings
    } else if listings.last().0 == nft_index {
        unlisted(listings.drop_last(), nft_index)
    } else {
        unlisted(listings.drop_last(), nft_index).push(listings.last())
    }
}

/// Whether a boost of `tokens` display units costs an amount within the
/// boost range.
pub open spec fn boost_in_range(tokens: u64) -> bool {
    BOOST_MIN_COST <= tokens * SCALE <= BOOST_MAX_COST
}

/// The cost of a boost of `tokens` display units.
pub open spec fn boost_cost(tokens: u64) -> u64
    recommends
        boost_in_range(tokens),
{
    (tokens * SCALE) as u64
}

/// The ledger and the answer after an action that may be rejected: the new
/// ledger and `success`, or the ledger as it was and the message of the
/// rejection.
pub open spec fn answered(
    before: LedgerView,
    outcome: Result<LedgerView, ActionError>,
    success: ActionResultView,
) -> (LedgerView, ActionResultView) {
    match outcome {
        Ok(next) => (next, success),
        Err(error) => (before, ActionResultView::Error { message: error.text() }),
    }
}

/// What became of an action: the ledger after it, or the reason for which
/// it was rejected. An exec result matches it where it reports the same
/// outcome, the ledger is the one described and a rejection left it as it
/// was.
pub open spec fn settles(
    before: LedgerView,
    outcome: Result<LedgerView, ActionError>,
    after: LedgerView,
    result: Result<(), ActionError>,
) -> bool {
    match outcome {
        Ok(next) => result is Ok && after == next,
        Err(error) => result == Err::<(), ActionError>(error) && after == before,
    }
}

impl LedgerView {
    /// The ledger before any action: nothing recorded, empty pools, and a
    /// population estimate of a thousand users.
    pub open spec fn initial() -> LedgerView {
        LedgerView {
            gamefi: GamefiView::initial(),
            runtime: RuntimeView::initial(),
            marketplace: TableView::empty(),
            content: TableView::empty(),
            posts: TableView::empty(),
            reputations: TableView::empty(),
            daily_rewards: TableView::empty(),
            total_users: 1000,
            platform_pool: 0,
            community_pool: 0,
        }
    }

    /// Every part is well formed, nobody has been granted more than the
    /// daily ceiling, and no record counts a liker twice.
    pub open spec fn wf(self) -> bool {
        &&& self.gamefi.wf()
        &&& self.runtime.wf()
        &&& self.marketplace.wf()
        &&& self.content.wf()
        &&& self.posts.wf()
        &&& self.reputations.wf()
        &&& self.daily_rewards.wf()
        &&& forall|id: Seq<char>| #[trigger]
            self.daily_rewards.contains(id) ==> self.daily_rewards.get(id) <= DAILY_CEILING
        &&& forall|id: Seq<char>| #[trigger] self.content.contains(id) ==> self.content.get(id).wf()
        &&& forall|id: Seq<char>| #[trigger] self.posts.contains(id) ==> self.posts.get(id).wf()
    }

    /// The reputation of `player`: none for an unknown player.
    pub open spec fn reputation(self, player: Seq<char>) -> u64 {
        self.reputations.get_or(player, 0)
    }

    /// The creator reward that `player` has been granted so far.
    pub open spec fn granted(self, player: Seq<char>) -> u64 {
        self.daily_rewards.get_or(player, 0)
    }

    /// The tiered reward that a view by `player` is worth.
    pub open spec fn mining_reward(self, player: Seq<char>) -> u64 {
        mining_reward_of(self.total_users, self.reputation(player))
    }

    /// What the daily cap lets through of a reward of `proposed` for
    /// `player`.
    pub open spec fn allowed(self, player: Seq<char>, proposed: u64) -> u64 {
        cap_grant(self.granted(player), proposed)
    }

    /// The ledger after the daily cap has let through what it can of a
    /// reward of `proposed` for `player`: the running total grows by what
    /// was let through.
    pub open spec fn check_daily_cap(self, player: Seq<char>, proposed: u64) -> LedgerView {
        LedgerView {
            daily_rewards: self.daily_rewards.insert(
                player,
                sat_add(self.granted(player), self.allowed(player, proposed)),
            ),
            ..self
        }
    }

    /// The ledger after `creator` has been rewarded `proposed` as far as the
    /// daily cap allows. A creator who is no player receives nothing, but
    /// the reward counts against the cap all the same.
    pub open spec fn pay_creator(self, creator: Seq<char>, proposed: u64) -> LedgerView {
        let capped = self.check_daily_cap(creator, proposed);
        LedgerView {
            runtime: capped.runtime.credit(creator, self.allowed(creator, proposed)),
            ..capped
        }
    }

    /// The ledger after the reputation of `player` has grown by `amount`.
    pub open spec fn add_reputation(self, player: Seq<char>, amount: u64) -> LedgerView {
        LedgerView {
            reputations: self.reputations.insert(player, sat_add(self.reputation(player), amount)),
            ..self
        }
    }

    /// The ledger after the platform pool and the community pool have each
    /// received their share of a paid action of the given cost.
    pub open spec fn fund_pools(self, cost: u64) -> LedgerView {
        LedgerView {
            platform_pool: sat_add(self.platform_pool, pool_share(cost)),
            community_pool: sat_add(self.community_pool, pool_share(cost)),
            ..self
        }
    }

    /// The listings of `seller`: none for an unknown seller.
    pub open spec fn listings_of(self, seller: Seq<char>) -> Seq<(u32, u64)> {
        self.marketplace.get_or(seller, Seq::empty())
    }

    /// The ledger after a token request: the player holds a thousand more of
    /// the token, and is registered as a player if it was not.
    pub open spec fn request_tokens(self, player: Seq<char>, token: Seq<char>) -> LedgerView {
        LedgerView {
            gamefi: self.gamefi.grant(player, token, TOKEN_GRANT),
            runtime: self.runtime.with_player(player),
            ..self
        }
    }

    /// Minting: the player pays the fee and receives the item.
    pub open spec fn mint_nft(self, player: Seq<char>, name: Seq<char>, value: u64) -> Result<
        LedgerView,
        ActionError,
    > {
        if !self.runtime.can_pay(player, MINT_COST) {
            Err(ActionError::InsufficientFunds)
        } else {
            Ok(
                LedgerView {
                    runtime: self.runtime.debit(player, MINT_COST).give_item(
                        player,
                        ItemView { name, value },
                    ),
                    ..self
                },
            )
        }
    }

    /// Listing: the seller offers the item at position `nft_index` of its
    /// inventory for `price`.
    pub open spec fn sell_nft(self, seller: Seq<char>, nft_index: u32, price: u64) -> Result<
        LedgerView,
        ActionError,
    > {
        if !self.runtime.players.contains(seller) {
            Err(ActionError::NotFound { entity: Entity::Seller })
        } else if !self.runtime.has_item(seller, nft_index as int) {
            Err(ActionError::InvalidRange { field: RangeField::NftIndex })
        } else {
            Ok(
                LedgerView {
                    marketplace: self.marketplace.insert(
                        seller,
                        self.listings_of(seller).push((nft_index, price)),
                    ),
                    ..self
                },
            )
        }
    }

    /// Buying: the item leaves the seller's inventory for the buyer's, the
    /// price goes from the buyer to the seller, and the listings for that
    /// position are removed.
    pub open spec fn buy_nft(self, buyer: Seq<char>, seller: Seq<char>, nft_index: u32) -> Result<
        LedgerView,
        ActionError,
    > {
        match listed_price(self.listings_of(seller), nft_index) {
            None => Err(ActionError::NotFound { entity: Entity::Listing }),
            Some(price) => {
                if !self.runtime.can_pay(buyer, price) {
                    Err(ActionError::InsufficientFunds)
                } else if !self.runtime.has_item(seller, nft_index as int) {
                    Err(ActionError::NotFound { entity: Entity::SellerOrNft })
                } else {
                    let item = self.runtime.players.get(seller).inventory[nft_index as int];
                    Ok(
                        LedgerView {
                            runtime: self.runtime.take_item(seller, nft_index as int).give_item(
                                buyer,
                                item,
                            ).debit(buyer, price).credit(seller, price),
                            marketplace: self.marketplace.insert(
                                seller,
                                unlisted(self.listings_of(seller), nft_index),
                            ),
                            ..self
                        },
                    )
                }
            },
        }
    }

    /// Uploading: the player pays the fee, the content is recorded afresh
    /// under its id, and the player gains five reputation.
    pub open spec fn upload_content(
        self,
        player: Seq<char>,
        content_id: Seq<char>,
        title: Seq<char>,
    ) -> Result<LedgerView, ActionError> {
        if !self.runtime.can_pay(player, UPLOAD_COST) {
            Err(ActionError::InsufficientFunds)
        } else {
            Ok(
                (LedgerView {
                    runtime: self.runtime.debit(player, UPLOAD_COST),
                    content: self.content.insert(content_id, ContentView::fresh(player, title)),
                    ..self
                }).add_reputation(player, 5),
            )
        }
    }

    /// Liking content: the like is recorded, the creator is rewarded within
    /// the daily cap, and the player gains one reputation. A player can
    /// like a piece of content once.
    pub open spec fn like_content(self, player: Seq<char>, content_id: Seq<char>) -> Result<
        LedgerView,
        ActionError,
    > {
        if !self.content.contains(content_id) {
            Err(ActionError::NotFound { entity: Entity::Content })
        } else if self.content.get(content_id).likes.contains(player) {
            Err(ActionError::AlreadyDone { action: OnceOnly::Like })
        } else {
            let record = self.content.get(content_id);
            Ok(
                (LedgerView {
                    content: self.content.insert(content_id, record.with_like(player)),
                    ..self
                }).pay_creator(record.creator, LIKE_REWARD).add_reputation(player, 1),
            )
        }
    }

    /// Commenting on content: the comment is recorded, the creator is
    /// rewarded within the daily cap, and the player gains one reputation.
    pub open spec fn comment_content(
        self,
        player: Seq<char>,
        content_id: Seq<char>,
        comment: Seq<char>,
    ) -> Result<LedgerView, ActionError> {
        if !self.content.contains(content_id) {
            Err(ActionError::NotFound { entity: Entity::Content })
        } else {
            let record = self.content.get(content_id);
            Ok(
                (LedgerView {
                    content: self.content.insert(content_id, record.with_comment(comment)),
                    ..self
                }).pay_creator(record.creator, COMMENT_REWARD).add_reputation(player, 1),
            )
        }
    }

    /// Viewing content: the view is counted, and the creator is rewarded
    /// within the daily cap with the tiered reward for the viewer.
    pub open spec fn view_content(self, player: Seq<char>, content_id: Seq<char>) -> Result<
        LedgerView,
        ActionError,
    > {
        if !self.content.contains(content_id) {
            Err(ActionError::NotFound { entity: Entity::Content })
        } else {
            let record = self.content.get(content_id);
            Ok(
                (LedgerView {
                    content: self.content.insert(content_id, record.viewed()),
                    ..self
                }).pay_creator(record.creator, self.mining_reward(player)),
            )
        }
    }

    /// Posting: the player pays the fee, the post is recorded afresh under
    /// its id, and the player gains five reputation.
    pub open spec fn post_content(self, player: Seq<char>, post_id: Seq<char>, caption: Seq<char>)
        -> Result<LedgerView, ActionError> {
        if !self.runtime.can_pay(player, POST_COST) {
            Err(ActionError::InsufficientFunds)
        } else {
            Ok(
                (LedgerView {
                    runtime: self.runtime.debit(player, POST_COST),
                    posts: self.posts.insert(post_id, PostView::fresh(player, caption)),
                    ..self
                }).add_reputation(player, 5),
            )
        }
    }

    /// Liking a post. A paid like costs the player its price, which is
    /// split between the creator, within the daily cap, and the two pools,
    /// and earns the player two reputation; an unpaid like rewards the
    /// creator within the daily cap and earns the player one. A player can
    /// like a post once.
    pub open spec fn like_post(self, player: Seq<char>, post_id: Seq<char>, paid: bool) -> Result<
        LedgerView,
        ActionError,
    > {
        if !self.posts.contains(post_id) {
            Err(ActionError::NotFound { entity: Entity::Post })
        } else if self.posts.get(post_id).likes.contains(player) {
            Err(ActionError::AlreadyDone { action: OnceOnly::Like })
        } else if paid && !self.runtime.can_pay(player, PAID_LIKE_COST) {
            Err(ActionError::InsufficientFunds)
        } else {
            let record = self.posts.get(post_id);
            let liked = LedgerView {
                posts: self.posts.insert(post_id, record.with_like(player)),
                ..self
            };
            if paid {
                Ok(
                    (LedgerView {
                        runtime: liked.runtime.debit(player, PAID_LIKE_COST),
                        ..liked
                    }).fund_pools(PAID_LIKE_COST).pay_creator(
                        record.creator,
                        creator_share(PAID_LIKE_COST),
                    ).add_reputation(player, 2),
                )
            } else {
                Ok(liked.pay_creator(record.creator, LIKE_REWARD).add_reputation(player, 1))
            }
        }
    }

    /// Commenting on a post: the comment is recorded, the creator is
    /// rewarded within the daily cap, and the player gains one reputation.
    pub open spec fn comment_post(self, player: Seq<char>, post_id: Seq<char>, comment: Seq<char>)
        -> Result<LedgerView, ActionError> {
        if !self.posts.contains(post_id) {
            Err(ActionError::NotFound { entity: Entity::Post })
        } else {
            let record = self.posts.get(post_id);
            Ok(
                (LedgerView {
                    posts: self.posts.insert(post_id, record.with_comment(comment)),
                    ..self
                }).pay_creator(record.creator, LIKE_REWARD).add_reputation(player, 1),
            )
        }
    }

    /// Boosting a post. The cost is `tokens` display units. A boost is
    /// rejected, in this order, where the cost lies outside the boost range,
    /// where the post exists and was made by someone else, where the player
    /// does not hold the cost, and where there is no such post. Otherwise
    /// the cost is split between the creator, within the daily cap, and the
    /// two pools.
    pub open spec fn boost_post(self, player: Seq<char>, post_id: Seq<char>, tokens: u64) -> Result<
        LedgerView,
        ActionError,
    > {
        if !boost_in_range(tokens) {
            Err(ActionError::InvalidRange { field: RangeField::BoostCost })
        } else if self.posts.contains(post_id) && self.posts.get(post_id).creator != player {
            Err(ActionError::PermissionDenied)
        } else if !self.runtime.can_pay(player, boost_cost(tokens)) {
            Err(ActionError::InsufficientFunds)
        } else if !self.posts.contains(post_id) {
            Err(ActionError::NotFound { entity: Entity::Post })
        } else {
            let record = self.posts.get(post_id);
            Ok(
                (LedgerView {
                    runtime: self.runtime.debit(player, boost_cost(tokens)),
                    posts: self.posts.insert(post_id, record.boosted(tokens)),
                    ..self
                }).pay_creator(player, creator_share(boost_cost(tokens))).fund_pools(
                    boost_cost(tokens),
                ),
            )
        }
    }

    /// The creators of the posts, in the order of the posts.
    pub open spec fn post_creators(self) -> Seq<Seq<char>> {
        Seq::new(self.posts.order.len(), |i: int| self.posts.map[self.posts.order[i]].creator)
    }

    /// The creators of the content, in the order of the content.
    pub open spec fn content_creators(self) -> Seq<Seq<char>> {
        Seq::new(self.content.order.len(), |i: int| self.content.map[self.content.order[i]].creator)
    }

    /// The ledger after the first `n` of `creators` have each been rewarded,
    /// within the daily cap, with the tiered reward that `origin` gives
    /// them.
    pub open spec fn pay_each(self, origin: LedgerView, creators: Seq<Seq<char>>, n: nat)
        -> LedgerView
        decreases n,
    {
        if n == 0 {
            self
        } else {
            let earlier = self.pay_each(origin, creators, (n - 1) as nat);
            earlier.pay_creator(creators[n - 1], origin.mining_reward(creators[n - 1]))
        }
    }

    /// The ledger after the periodic sweep: the creator of every post, then
    /// of every piece of content, is rewarded within the daily cap with the
    /// tiered reward for its reputation.
    pub open spec fn distribute_time_rewards(self) -> LedgerView {
        self.pay_each(self, self.post_creators(), self.posts.len()).pay_each(
            self,
            self.content_creators(),
            self.content.len(),
        )
    }

    /// The list of posts: id, creator, caption, number of likes and boosts.
    pub open spec fn post_rows(self) -> Seq<(Seq<char>, Seq<char>, Seq<char>, u64, u64)> {
        Seq::new(
            self.posts.order.len(),
            |i: int|
                {
                    let id = self.posts.order[i];
                    let record = self.posts.map[id];
                    (id, record.creator, record.caption, record.likes.len() as u64, record.boosts)
                },
        )
    }

    /// The list of videos: id, creator, title and number of views.
    pub open spec fn video_rows(self) -> Seq<(Seq<char>, Seq<char>, Seq<char>, u64)> {
        Seq::new(
            self.content.order.len(),
            |i: int|
                {
                    let id = self.content.order[i];
                    let record = self.content.map[id];
                    (id, record.creator, record.title, record.views)
                },
        )
    }

    /// The lines for the first `n` listings of `seller`: a listing whose
    /// position no longer lies in the seller's inventory gives no line.
    pub open spec fn seller_rows(self, seller: Seq<char>, listings: Seq<(u32, u64)>, n: nat) -> Seq<
        (Seq<char>, u32, Seq<char>, u64),
    >
        decreases n,
    {
        if n == 0 {
            Seq::empty()
        } else {
            let earlier = self.seller_rows(seller, listings, (n - 1) as nat);
            let listing = listings[n - 1];
            if self.runtime.has_item(seller, listing.0 as int) {
                earlier.push(
                    (
                        seller,
                        listing.0,
                        self.runtime.players.get(seller).inventory[listing.0 as int].name,
                        listing.1,
                    ),
                )
            } else {
                earlier
            }
        }
    }

    /// The lines for the listings of the first `n` sellers.
    pub open spec fn listing_rows_upto(self, n: nat) -> Seq<(Seq<char>, u32, Seq<char>, u64)>
        decreases n,
    {
        if n == 0 {
            Seq::empty()
        } else {
            let seller = self.marketplace.order[n - 1];
            let listings = self.marketplace.map[seller];
            self.listing_rows_upto((n - 1) as nat) + self.seller_rows(
                seller,
                listings,
                listings.len(),
            )
        }
    }

    /// The list of items for sale: seller, position, name and price.
    pub open spec fn listing_rows(self) -> Seq<(Seq<char>, u32, Seq<char>, u64)> {
        self.listing_rows_upto(self.marketplace.len())
    }

    /// The token balances of `player`, each written out in decimal.
    pub open spec fn player_data(self, player: Seq<char>) -> Seq<(Seq<char>, Seq<char>)> {
        let tokens = self.gamefi.tokens_of(player);
        Seq::new(
            tokens.order.len(),
            |i: int| (tokens.order[i], digits(tokens.map[tokens.order[i]] as nat, 10)),
        )
    }

    /// The counters of `player`.
    pub open spec fn player_stats(self, player: Seq<char>) -> Seq<(Seq<char>, u64)> {
        let stats = self.gamefi.content_stats.get_or(player, TableView::empty());
        Seq::new(stats.order.len(), |i: int| (stats.order[i], stats.map[stats.order[i]]))
    }

    /// The ledger with its runtime replaced.
    pub open spec fn with_runtime(self, runtime: RuntimeView) -> LedgerView {
        LedgerView { runtime, ..self }
    }

    /// The ledger and the answer after one action, given what chance
    /// decided. Every action has exactly one answer; a rejected action
    /// leaves the ledger as it was and is answered with the message of its
    /// rejection.
    pub open spec fn step(self, action: ActionView, draws: DrawsView) -> (
        LedgerView,
        ActionResultView,
    ) {
        match action {
            ActionView::RequestTokens { player, token } => (
                self.request_tokens(player, token),
                ActionResultView::TokensRequested { player, token, amount: TOKEN_GRANT },
            ),
            ActionView::GetBalance { player, token } => (
                self,
                ActionResultView::Balance {
                    player,
                    token,
                    balance: self.gamefi.balance(player, token),
                },
            ),
            ActionView::GetPlayer { player } => (
                self,
                ActionResultView::Player { player, data: self.player_data(player) },
            ),
            ActionView::GetContentStats { player } => (
                self,
                ActionResultView::ContentStats { player, stats: self.player_stats(player) },
            ),
            ActionView::SimulateActivity => (
                self.with_runtime(self.runtime.simulate_player_activity(draws.picks)),
                ActionResultView::ActivitySimulated,
            ),
            ActionView::MineBlock { miner, index } => {
                let mined = self.runtime.mining_outcome(
                    "previous_hash"@,
                    miner,
                    index,
                    draws.nonce,
                    draws.computed_hash,
                    draws.timestamp,
                    draws.flips,
                );
                (self.with_runtime(mined.0), ActionResultView::BlockMined { miner, block: mined.1 })
            },
            ActionView::RecordActivity { player, activity_type } => (
                self.with_runtime(
                    self.runtime.record_activity(player, activity_type, draw_at(draws.flips, 0)),
                ),
                ActionResultView::ActivityRecorded {
                    player,
                    activity_type,
                    points: activity_points(activity_type),
                },
            ),
            ActionView::Battle { player1, player2 } => (
                self.with_runtime(
                    self.runtime.battle(
                        player1,
                        player2,
                        draws.roll1,
                        draws.roll2,
                        draw_at(draws.flips, 0),
                    ),
                ),
                if self.runtime.battle_first_wins(player1, player2, draws.roll1, draws.roll2) {
                    ActionResultView::BattleResult { winner: player1, loser: player2 }
                } else {
                    ActionResultView::BattleResult { winner: player2, loser: player1 }
                },
            ),
            ActionView::TradeItems {
                player1,
                player1_item_index,
                player2,
                player2_item_index,
            } => (
                self.with_runtime(
                    self.runtime.trade_items(
                        player1,
                        player1_item_index as int,
                        player2,
                        player2_item_index as int,
                        draw_at(draws.flips, 0),
                        draw_at(draws.flips, 1),
                    ),
                ),
                ActionResultView::ItemsTraded {
                    player1,
                    player2,
                    success: self.runtime.can_trade(
                        player1,
                        player1_item_index as int,
                        player2,
                        player2_item_index as int,
                    ),
                },
            ),
            ActionView::DistributeMtoshiRewards => (
                self.with_runtime(self.runtime.distribute_mtoshi_rewards()),
                ActionResultView::MtoshiDistributed { total_reward: ACTIVITY_POOL_REWARD },
            ),
            ActionView::ShowLeaderboard => (
                self,
                ActionResultView::Leaderboard { players: self.runtime.leaderboard() },
            ),
            ActionView::GetMtoshiBalance { player } => (
                self,
                ActionResultView::MtoshiBalance {
                    player,
                    balance: match self.runtime.mtoshi_balance(player) {
                        Some(balance) => balance,
                        None => 0,
                    },
                },
            ),
            ActionView::MintNft { player, name, value } => answered(
                self,
                self.mint_nft(player, name, value),
                ActionResultView::NftMinted { player, name, value },
            ),
            ActionView::BuyNft { buyer, seller, nft_index } => answered(
                self,
                self.buy_nft(buyer, seller, nft_index),
                ActionResultView::NftBought { buyer, seller, nft_index },
            ),
            ActionView::SellNft { seller, nft_index, price } => answered(
                self,
                self.sell_nft(seller, nft_index, price),
                ActionResultView::NftListed { seller, nft_index, price },
            ),
            ActionView::UploadContent { player, content_id, title } => answered(
                self,
                self.upload_content(player, content_id, title),
                ActionResultView::ContentUploaded { player, content_id },
            ),
            ActionView::LikeContent { player, content_id } => answered(
                self,
                self.like_content(player, content_id),
                ActionResultView::ContentLiked { player, content_id },
            ),
            ActionView::CommentContent { player, content_id, comment } => answered(
                self,
                self.comment_content(player, content_id, comment),
                ActionResultView::ContentCommented { player, content_id },
            ),
            ActionView::ViewContent { player, content_id } => answered(
                self,
                self.view_content(player, content_id),
                ActionResultView::ContentViewed { player, content_id },
            ),
            ActionView::PostContent { player, post_id, caption } => answered(
                self,
                self.post_content(player, post_id, caption),
                ActionResultView::ContentPosted { player, post_id },
            ),
            ActionView::LikePost { player, post_id, paid } => answered(
                self,
                self.like_post(player, post_id, paid),
                ActionResultView::PostLiked { player, post_id, paid },
            ),
            ActionView::CommentPost { player, post_id, comment } => answered(
                self,
                self.comment_post(player, post_id, comment),
                ActionResultView::PostCommented { player, post_id },
            ),
            ActionView::BoostPost { player, post_id, tokens } => answered(
                self,
                self.boost_post(player, post_id, tokens),
                ActionResultView::PostBoosted { player, post_id, tokens },
            ),
            ActionView::GetPosts => (self, ActionResultView::Posts { posts: self.post_rows() }),
            ActionView::GetVideos => (self, ActionResultView::Videos { videos: self.video_rows() }),
            ActionView::GetNftListings => (
                self,
                ActionResultView::NftListings { listings: self.listing_rows() },
            ),
        }
    }
}

/// The ledger after the daily cap has been applied, for one player, to each
/// of the first `n` requested rewards in turn.
pub open spec fn capped_in_turn(state: LedgerView, player: Seq<char>, requests: Seq<u64>, n: nat)
    -> LedgerView
    decreases n,
{
    if n == 0 {
        state
    } else {
        capped_in_turn(state, player, requests, (n - 1) as nat).check_daily_cap(
            player,
            requests[n - 1],
        )
    }
}

/// Applying the daily cap keeps the ledger well formed: the running total
/// of the player never falls, never grows by more than was requested, and
/// never passes the daily ceiling.
pub proof fn lemma_daily_cap_step(state: LedgerView, player: Seq<char>, proposed: u64)
    requires
        state.wf(),
    ensures
        state.check_daily_cap(player, proposed).wf(),
        state.granted(player) <= state.check_daily_cap(player, proposed).granted(player)
            <= DAILY_CEILING,
        state.check_daily_cap(player, proposed).granted(player) == state.granted(player)
            + state.allowed(player, proposed),
        state.allowed(player, proposed) <= proposed,
{
    let next = state.check_daily_cap(player, proposed);
    if state.daily_rewards.contains(player) {
        assert(state.daily_rewards.get(player) <= DAILY_CEILING);
    }
    state.daily_rewards.lemma_insert_wf(
        player,
        sat_add(state.granted(player), state.allowed(player, proposed)),
    );
    assert forall|id: Seq<char>| #[trigger] next.daily_rewards.contains(
        id,
    ) implies next.daily_rewards.get(id) <= DAILY_CEILING by {
        if id != player {
            assert(state.daily_rewards.contains(id));
        }
    }
}

/// However many rewards are requested for one player, and whatever their
/// amounts, the running total of that player never falls and never passes
/// the daily ceiling.
pub proof fn lemma_daily_cap_bounded(
    state: LedgerView,
    player: Seq<char>,
    requests: Seq<u64>,
    n: nat,
)
    requires
        state.wf(),
        n <= requests.len(),
    ensures
        capped_in_turn(state, player, requests, n).wf(),
        state.granted(player) <= capped_in_turn(state, player, requests, n).granted(player)
            <= DAILY_CEILING,
    decreases n,
{
    if n == 0 {
        if state.daily_rewards.contains(player) {
            assert(state.daily_rewards.get(player) <= DAILY_CEILING);
        }
    } else {
        lemma_daily_cap_bounded(state, player, requests, (n - 1) as nat);
        lemma_daily_cap_step(
            capped_in_turn(state, player, requests, (n - 1) as nat),
            player,
            requests[n - 1],
        );
    }
}

/// A paid like that succeeds takes the price of a paid like from the
/// player, and the creator's share and the two pools' shares of that price
/// add up to it.
pub proof fn lemma_paid_like_conserves(state: LedgerView, player: Seq<char>, post_id: Seq<char>)
    requires
        state.wf(),
        state.like_post(player, post_id, true) is Ok,
    ensures
        state.runtime.can_pay(player, PAID_LIKE_COST),
        creator_share(PAID_LIKE_COST) + pool_share(PAID_LIKE_COST) + pool_share(PAID_LIKE_COST)
            == PAID_LIKE_COST,
        state.like_post(player, post_id, true)->Ok_0.platform_pool == sat_add(
            state.platform_pool,
            pool_share(PAID_LIKE_COST),
        ),
        state.like_post(player, post_id, true)->Ok_0.community_pool == sat_add(
            state.community_pool,
            pool_share(PAID_LIKE_COST),
        ),
{
    lemma_paid_split_conserves(PAID_LIKE_COST);
}

/// A boost that succeeds takes its cost from the player, and the creator's
/// share and the two pools' shares of that cost add up to it.
pub proof fn lemma_boost_conserves(
    state: LedgerView,
    player: Seq<char>,
    post_id: Seq<char>,
    tokens: u64,
)
    requires
        state.wf(),
        state.boost_post(player, post_id, tokens) is Ok,
    ensures
        state.runtime.can_pay(player, boost_cost(tokens)),
        creator_share(boost_cost(tokens)) + pool_share(boost_cost(tokens)) + pool_share(
            boost_cost(tokens),
        ) == boost_cost(tokens),
        state.boost_post(player, post_id, tokens)->Ok_0.platform_pool == sat_add(
            state.platform_pool,
            pool_share(boost_cost(tokens)),
        ),
        state.boost_post(player, post_id, tokens)->Ok_0.community_pool == sat_add(
            state.community_pool,
            pool_share(boost_cost(tokens)),
        ),
{
    assert(tokens == 1 || tokens == 2);
    lemma_paid_split_conserves(boost_cost(tokens));
}

/// After a player has liked a piece of content, a second like by the same
/// player on the same content is rejected as already done, and leaves the
/// ledger as the first like left it.
pub proof fn lemma_like_content_once(
    state: LedgerView,
    player: Seq<char>,
    content_id: Seq<char>,
    draws: DrawsView,
)
    requires
        state.wf(),
        state.like_content(player, content_id) is Ok,
    ensures
        state.like_content(player, content_id)->Ok_0.like_content(player, content_id) == Err::<
            LedgerView,
            ActionError,
        >(ActionError::AlreadyDone { action: OnceOnly::Like }),
        state.like_content(player, content_id)->Ok_0.step(
            ActionView::LikeContent { player, content_id },
            draws,
        ) == (
            state.like_content(player, content_id)->Ok_0,
            ActionResultView::Error {
                message: (ActionError::AlreadyDone { action: OnceOnly::Like }).text(),
            },
        ),
{
    let likes = state.content.get(content_id).likes;
    assert(likes.push(player)[likes.len() as int] == player);
}

/// After a player has liked a post, paid or not, a second like by the same
/// player on the same post, paid or not, is rejected as already done, and
/// leaves the ledger as the first like left it.
pub proof fn lemma_like_post_once(
    state: LedgerView,
    player: Seq<char>,
    post_id: Seq<char>,
    paid_first: bool,
    paid_second: bool,
    draws: DrawsView,
)
    requires
        state.wf(),
        state.like_post(player, post_id, paid_first) is Ok,
    ensures
        state.like_post(player, post_id, paid_first)->Ok_0.like_post(player, post_id, paid_second)
            == Err::<LedgerView, ActionError>(ActionError::AlreadyDone { action: OnceOnly::Like }),
        state.like_post(player, post_id, paid_first)->Ok_0.step(
            ActionView::LikePost { player, post_id, paid: paid_second },
            draws,
        ) == (
            state.like_post(player, post_id, paid_first)->Ok_0,
            ActionResultView::Error {
                message: (ActionError::AlreadyDone { action: OnceOnly::Like }).text(),
            },
        ),
{
    let likes = state.posts.get(post_id).likes;
    assert(likes.push(player)[likes.len() as int] == player);
}

/// A boost whose cost lies outside the boost range is rejected for its
/// range and leaves the ledger as it was, whoever asks and whatever the
/// ledger holds. Three display units lie outside the range.
pub proof fn lemma_boost_out_of_range(
    state: LedgerView,
    player: Seq<char>,
    post_id: Seq<char>,
    tokens: u64,
    draws: DrawsView,
)
    requires
        tokens < 1 || tokens > 2,
    ensures
        !boost_in_range(tokens),
        !boost_in_range(3),
        state.boost_post(player, post_id, tokens) == Err::<LedgerView, ActionError>(
            ActionError::InvalidRange { field: RangeField::BoostCost },
        ),
        state.step(ActionView::BoostPost { player, post_id, tokens }, draws) == (
            state,
            ActionResultView::Error {
                message: (ActionError::InvalidRange { field: RangeField::BoostCost }).text(),
            },
        ),
{
}

/// A boost within the range of a post that someone else made is rejected
/// for want of permission and leaves the ledger as it was.
pub proof fn lemma_boost_by_stranger(
    state: LedgerView,
    player: Seq<char>,
    post_id: Seq<char>,
    tokens: u64,
    draws: DrawsView,
)
    requires
        tokens == 1 || tokens == 2,
        state.posts.contains(post_id),
        state.posts.get(post_id).creator != player,
    ensures
        state.boost_post(player, post_id, tokens) == Err::<LedgerView, ActionError>(
            ActionError::PermissionDenied,
        ),
        state.step(ActionView::BoostPost { player, post_id, tokens }, draws) == (
            state,
            ActionResultView::Error { message: ActionError::PermissionDenied.text() },
        ),
{
}

/// Whether `after` holds for `player` at least the reputation and the
/// running total of creator rewards that `before` holds, pools that are at
/// least as full, and the same population estimate.
pub open spec fn never_lower(before: LedgerView, after: LedgerView, player: Seq<char>) -> bool {
    &&& after.reputation(player) >= before.reputation(player)
    &&& after.granted(player) >= before.granted(player)
    &&& after.platform_pool >= before.platform_pool
    &&& after.community_pool >= before.community_pool
    &&& after.total_users == before.total_users
}

/// Rewarding a creator lowers nothing.
pub proof fn lemma_pay_creator_never_lowers(
    state: LedgerView,
    creator: Seq<char>,
    proposed: u64,
    player: Seq<char>,
)
    ensures
        never_lower(state, state.pay_creator(creator, proposed), player),
        state.pay_creator(creator, proposed).reputations == state.reputations,
{
}

/// A like, a comment or a view on content lowers nothing.
pub proof fn lemma_content_actions_never_lower(
    state: LedgerView,
    actor: Seq<char>,
    content_id: Seq<char>,
    comment: Seq<char>,
    player: Seq<char>,
)
    ensures
        state.like_content(actor, content_id) is Ok ==> never_lower(
            state,
            state.like_content(actor, content_id)->Ok_0,
            player,
        ),
        state.comment_content(actor, content_id, comment) is Ok ==> never_lower(
            state,
            state.comment_content(actor, content_id, comment)->Ok_0,
            player,
        ),
        state.view_content(actor, content_id) is Ok ==> never_lower(
            state,
            state.view_content(actor, content_id)->Ok_0,
            player,
        ),
{
    let record = state.content.get(content_id);
    let liked = LedgerView {
        content: state.content.insert(content_id, record.with_like(actor)),
        ..state
    };
    lemma_pay_creator_never_lowers(liked, record.creator, LIKE_REWARD, player);
    let commented = LedgerView {
        content: state.content.insert(content_id, record.with_comment(comment)),
        ..state
    };
    lemma_pay_creator_never_lowers(commented, record.creator, COMMENT_REWARD, player);
    let viewed = LedgerView {
        content: state.content.insert(content_id, record.viewed()),
        ..state
    };
    lemma_pay_creator_never_lowers(viewed, record.creator, state.mining_reward(actor), player);
}

/// A like or a comment on a post lowers nothing.
pub proof fn lemma_post_actions_never_lower(
    state: LedgerView,
    actor: Seq<char>,
    post_id: Seq<char>,
    paid: bool,
    comment: Seq<char>,
    player: Seq<char>,
)
    ensures
        state.like_post(actor, post_id, paid) is Ok ==> never_lower(
            state,
            state.like_post(actor, post_id, paid)->Ok_0,
            player,
        ),
        state.comment_post(actor, post_id, comment) is Ok ==> never_lower(
            state,
            state.comment_post(actor, post_id, comment)->Ok_0,
            player,
        ),
{
    let record = state.posts.get(post_id);
    let liked = LedgerView {
        posts: state.posts.insert(post_id, record.with_like(actor)),
        ..state
    };
    lemma_pay_creator_never_lowers(liked, record.creator, LIKE_REWARD, player);
    let charged = (LedgerView {
        runtime: liked.runtime.debit(actor, PAID_LIKE_COST),
        ..liked
    }).fund_pools(PAID_LIKE_COST);
    lemma_pay_creator_never_lowers(
        charged,
        record.creator,
        creator_share(PAID_LIKE_COST),
        player,
    );
    let commented = LedgerView {
        posts: state.posts.insert(post_id, record.with_comment(comment)),
        ..state
    };
    lemma_pay_creator_never_lowers(commented, record.creator, LIKE_REWARD, player);
}

/// A boost lowers nothing.
pub proof fn lemma_boost_never_lowers(
    state: LedgerView,
    actor: Seq<char>,
    post_id: Seq<char>,
    tokens: u64,
    player: Seq<char>,
)
    ensures
        state.boost_post(actor, post_id, tokens) is Ok ==> never_lower(
            state,
            state.boost_post(actor, post_id, tokens)->Ok_0,
            player,
        ),
{
    let record = state.posts.get(post_id);
    let boosted = LedgerView {
        runtime: state.runtime.debit(actor, boost_cost(tokens)),
        posts: state.posts.insert(post_id, record.boosted(tokens)),
        ..state
    };
    lemma_pay_creator_never_lowers(boosted, actor, creator_share(boost_cost(tokens)), player);
}

/// Whatever the action and whatever chance decides, no reputation, no
/// running total of creator rewards and neither pool ever falls.
pub proof fn lemma_step_never_lowers(
    state: LedgerView,
    action: ActionView,
    draws: DrawsView,
    player: Seq<char>,
)
    ensures
        never_lower(state, state.step(action, draws).0, player),
{
    match action {
        ActionView::LikeContent { player: actor, content_id } => {
            lemma_content_actions_never_lower(state, actor, content_id, Seq::empty(), player);
        },
        ActionView::CommentContent { player: actor, content_id, comment } => {
            lemma_content_actions_never_lower(state, actor, content_id, comment, player);
        },
        ActionView::ViewContent { player: actor, content_id } => {
            lemma_content_actions_never_lower(state, actor, content_id, Seq::empty(), player);
        },
        ActionView::LikePost { player: actor, post_id, paid } => {
            lemma_post_actions_never_lower(state, actor, post_id, paid, Seq::empty(), player);
        },
        ActionView::CommentPost { player: actor, post_id, comment } => {
            lemma_post_actions_never_lower(state, actor, post_id, false, comment, player);
        },
        ActionView::BoostPost { player: actor, post_id, tokens } => {
            lemma_boost_never_lowers(state, actor, post_id, tokens, player);
        },
        _ => {},
    }
}

/// The price found in a list of listings with one more listing at its end:
/// the price found before, or else that of the new listing if it is for the
/// item sought.
pub proof fn lemma_listed_price_push(listings: Seq<(u32, u64)>, last: (u32, u64), nft_index: u32)
    ensures
        listed_price(listings.push(last), nft_index) == match listed_price(listings, nft_index) {
            Some(price) => Some(price),
            None => if last.0 == nft_index {
                Some(last.1)
            } else {
                None
            },
        },
    decreases listings.len(),
{
    let longer = listings.push(last);
    if listings.len() == 0 {
        assert(longer.drop_first() =~= listings);
    } else if listings[0].0 != nft_index {
        assert(longer.drop_first() =~= listings.drop_first().push(last));
        lemma_listed_price_push(listings.drop_first(), last, nft_index);
    }
}

/// Once the listings for an item have been removed, no price is found for
/// the item.
pub proof fn lemma_unlisted_has_no_price(listings: Seq<(u32, u64)>, nft_index: u32)
    ensures
        listed_price(unlisted(listings, nft_index), nft_index) is None,
    decreases listings.len(),
{
    if listings.len() > 0 {
        lemma_unlisted_has_no_price(listings.drop_last(), nft_index);
        if listings.last().0 != nft_index {
            lemma_listed_price_push(
                unlisted(listings.drop_last(), nft_index),
                listings.last(),
                nft_index,
            );
        }
    }
}

/// A buy that succeeds moves the item from the seller to a buyer who is
/// someone else: the item leaves the seller's inventory and is appended to
/// the buyer's, the price leaves the buyer's balance and reaches the
/// seller's, and the item is no longer listed.
pub proof fn lemma_buy_moves_item(
    state: LedgerView,
    buyer: Seq<char>,
    seller: Seq<char>,
    nft_index: u32,
)
    requires
        state.wf(),
        buyer != seller,
        state.buy_nft(buyer, seller, nft_index) is Ok,
    ensures
        ({
            let next = state.buy_nft(buyer, seller, nft_index)->Ok_0;
            let price = listed_price(state.listings_of(seller), nft_index)->Some_0;
            let sold = state.runtime.players.get(seller);
            let bought = state.runtime.players.get(buyer);
            &&& next.runtime.players.get(seller).inventory == sold.inventory.remove(
                nft_index as int,
            )
            &&& next.runtime.players.get(buyer).inventory == bought.inventory.push(
                sold.inventory[nft_index as int],
            )
            &&& next.runtime.players.get(buyer).mtoshi_balance == bought.mtoshi_balance - price
            &&& next.runtime.players.get(seller).mtoshi_balance == sat_add(
                sold.mtoshi_balance,
                price,
            )
            &&& listed_price(next.listings_of(seller), nft_index) is None
        }),
{
    lemma_unlisted_has_no_price(state.listings_of(seller), nft_index);
}

} // verus!
