use gamefi_ledger::action::{Action, ActionError, ActionResult, Entity, OnceOnly, RangeField};
use gamefi_ledger::blockchain::Blockchain;
use gamefi_ledger::draws::Draws;
use gamefi_ledger::economy::{DAILY_CEILING, SCALE};
use gamefi_ledger::player::Item;

fn text(s: &str) -> String {
    s.to_string()
}

fn error(message: &str) -> ActionResult {
    ActionResult::Error { message: text(message) }
}

fn ledger_with(players: &[(&str, u64)]) -> Blockchain {
    let mut ledger = Blockchain::with_seed(9);
    for (id, balance) in players {
        ledger.full_gamefi_runtime.ensure_player(id);
        ledger.full_gamefi_runtime.credit(id, *balance);
    }
    ledger
}

fn balance_of(ledger: &Blockchain, id: &str) -> u64 {
    ledger.full_gamefi_runtime.get_mtoshi_balance(id).unwrap()
}

fn upload(ledger: &mut Blockchain, player: &str, content_id: &str) -> ActionResult {
    ledger.process_action(Action::UploadContent {
        player: text(player),
        content_id: text(content_id),
        title: text("a title"),
    })
}

fn post(ledger: &mut Blockchain, player: &str, post_id: &str) -> ActionResult {
    ledger.process_action(Action::PostContent {
        player: text(player),
        post_id: text(post_id),
        caption: text("a caption"),
    })
}

#[test]
fn a_new_ledger_is_empty() {
    let ledger = Blockchain::new();
    assert_eq!(ledger.total_users, 1000);
    assert_eq!(ledger.platform_pool, 0);
    assert_eq!(ledger.community_pool, 0);
    assert_eq!(ledger.content.len(), 0);
    assert_eq!(ledger.posts.len(), 0);
    assert_eq!(ledger.full_gamefi_runtime.players.len(), 0);
    assert_eq!(ledger.full_gamefi_runtime.pool_balance, 1_000_000);
}

#[test]
fn requested_tokens_show_in_the_balance() {
    let mut ledger = Blockchain::with_seed(1);
    let granted =
        ledger.process_action(Action::RequestTokens { player: text("alice"), token: text("GOLD") });
    assert_eq!(
        granted,
        ActionResult::TokensRequested { player: text("alice"), token: text("GOLD"), amount: 1000 }
    );
    let balance =
        ledger.process_action(Action::GetBalance { player: text("alice"), token: text("GOLD") });
    assert_eq!(
        balance,
        ActionResult::Balance { player: text("alice"), token: text("GOLD"), balance: 1000 }
    );
    assert_eq!(ledger.full_gamefi_runtime.get_mtoshi_balance("alice"), Some(0));
}

#[test]
fn token_requests_add_up_per_player_and_token() {
    let mut ledger = Blockchain::with_seed(1);
    let requests = [("alice", "GOLD"), ("alice", "IRON"), ("bob", "GOLD"), ("alice", "GOLD")];
    for (player, token) in requests {
        ledger.process_action(Action::RequestTokens { player: text(player), token: text(token) });
    }
    assert_eq!(ledger.gamefi_runtime.balance("alice", "GOLD"), 2000);
    assert_eq!(ledger.gamefi_runtime.balance("alice", "IRON"), 1000);
    assert_eq!(ledger.gamefi_runtime.balance("bob", "GOLD"), 1000);
    assert_eq!(ledger.gamefi_runtime.balance("bob", "IRON"), 0);
    assert_eq!(ledger.gamefi_runtime.balance("carol", "GOLD"), 0);
    assert_eq!(
        ledger.process_action(Action::GetPlayer { player: text("alice") }),
        ActionResult::Player {
            player: text("alice"),
            data: vec![(text("GOLD"), text("2000")), (text("IRON"), text("1000"))],
        }
    );
    assert_eq!(
        ledger.process_action(Action::GetPlayer { player: text("carol") }),
        ActionResult::Player { player: text("carol"), data: vec![] }
    );
    assert_eq!(ledger.full_gamefi_runtime.players.keys, vec![text("alice"), text("bob")]);
}

#[test]
fn content_stats_start_empty() {
    let mut ledger = Blockchain::with_seed(1);
    ledger.process_action(Action::RequestTokens { player: text("alice"), token: text("GOLD") });
    assert_eq!(
        ledger.process_action(Action::GetContentStats { player: text("alice") }),
        ActionResult::ContentStats { player: text("alice"), stats: vec![] }
    );
}

#[test]
fn simulated_token_activity_raises_balances_and_counts_tokens() {
    let mut ledger = Blockchain::with_seed(1);
    for (player, token) in [("alice", "GOLD"), ("alice", "IRON"), ("bob", "GOLD")] {
        ledger.process_action(Action::RequestTokens { player: text(player), token: text(token) });
    }
    ledger.gamefi_runtime.simulate_player_activity();
    ledger.gamefi_runtime.simulate_player_activity();
    assert_eq!(ledger.gamefi_runtime.balance("alice", "GOLD"), 1020);
    assert_eq!(ledger.gamefi_runtime.balance("alice", "IRON"), 1020);
    assert_eq!(ledger.gamefi_runtime.balance("bob", "GOLD"), 1020);
    assert_eq!(
        ledger.process_action(Action::GetContentStats { player: text("alice") }),
        ActionResult::ContentStats {
            player: text("alice"),
            stats: vec![(text("GOLD"), 2), (text("IRON"), 2)],
        }
    );
    assert_eq!(
        ledger.gamefi_runtime.show_leaderboard(),
        vec![(text("alice"), 2040), (text("bob"), 1020)]
    );
}

#[test]
fn minting_without_funds_is_rejected() {
    let mut ledger = ledger_with(&[("alice", 10 * SCALE - 1)]);
    let result = ledger.process_action(Action::MintNft {
        player: text("alice"),
        name: text("Sword"),
        value: 50,
    });
    assert_eq!(result, error("Insufficient DTOSHI"));
    assert!(ledger.full_gamefi_runtime.players.values[0].inventory.is_empty());
    assert_eq!(balance_of(&ledger, "alice"), 10 * SCALE - 1);
    assert_eq!(
        ledger.mint_nft("ghost", text("Sword"), 50),
        Err(ActionError::InsufficientFunds)
    );
}

#[test]
fn minting_costs_ten_units_and_adds_the_item() {
    let mut ledger = ledger_with(&[("alice", 25 * SCALE)]);
    let result = ledger.process_action(Action::MintNft {
        player: text("alice"),
        name: text("Sword"),
        value: 50,
    });
    assert_eq!(
        result,
        ActionResult::NftMinted { player: text("alice"), name: text("Sword"), value: 50 }
    );
    assert_eq!(balance_of(&ledger, "alice"), 15 * SCALE);
    assert_eq!(
        ledger.full_gamefi_runtime.players.values[0].inventory,
        vec![Item { name: text("Sword"), value: 50 }]
    );
}

#[test]
fn a_listed_item_is_sold_to_a_buyer_with_funds() {
    let mut ledger = ledger_with(&[("bob", 10 * SCALE), ("alice", 7 * SCALE)]);
    ledger.process_action(Action::MintNft { player: text("bob"), name: text("Sword"), value: 50 });
    assert_eq!(balance_of(&ledger, "bob"), 0);
    let listed = ledger.process_action(Action::SellNft {
        seller: text("bob"),
        nft_index: 0,
        price: 5 * SCALE,
    });
    assert_eq!(
        listed,
        ActionResult::NftListed { seller: text("bob"), nft_index: 0, price: 5 * SCALE }
    );
    assert_eq!(
        ledger.process_action(Action::GetNftListings),
        ActionResult::NftListings { listings: vec![(text("bob"), 0, text("Sword"), 5 * SCALE)] }
    );
    let bought = ledger.process_action(Action::BuyNft {
        buyer: text("alice"),
        seller: text("bob"),
        nft_index: 0,
    });
    assert_eq!(
        bought,
        ActionResult::NftBought { buyer: text("alice"), seller: text("bob"), nft_index: 0 }
    );
    assert!(ledger.full_gamefi_runtime.players.values[0].inventory.is_empty());
    assert_eq!(
        ledger.full_gamefi_runtime.players.values[1].inventory,
        vec![Item { name: text("Sword"), value: 50 }]
    );
    assert_eq!(balance_of(&ledger, "alice"), 2 * SCALE);
    assert_eq!(balance_of(&ledger, "bob"), 5 * SCALE);
    assert_eq!(ledger.nft_marketplace.get("bob"), Some(&vec![]));
    assert_eq!(
        ledger.process_action(Action::GetNftListings),
        ActionResult::NftListings { listings: vec![] }
    );
    assert_eq!(
        ledger.process_action(Action::BuyNft {
            buyer: text("alice"),
            seller: text("bob"),
            nft_index: 0,
        }),
        error("NFT not listed")
    );
}

#[test]
fn selling_needs_a_seller_and_an_item() {
    let mut ledger = ledger_with(&[("bob", 0)]);
    assert_eq!(
        ledger.process_action(Action::SellNft { seller: text("ghost"), nft_index: 0, price: 1 }),
        error("Seller not found")
    );
    assert_eq!(
        ledger.process_action(Action::SellNft { seller: text("bob"), nft_index: 0, price: 1 }),
        error("Invalid NFT index")
    );
    assert_eq!(
        ledger.sell_nft("ghost", 0, 1),
        Err(ActionError::NotFound { entity: Entity::Seller })
    );
    assert_eq!(
        ledger.sell_nft("bob", 0, 1),
        Err(ActionError::InvalidRange { field: RangeField::NftIndex })
    );
    assert_eq!(ledger.nft_marketplace.len(), 0);
}

#[test]
fn buying_is_rejected_step_by_step() {
    let mut ledger = ledger_with(&[("bob", 0), ("alice", 4 * SCALE)]);
    ledger.full_gamefi_runtime.give_item("bob", Item { name: text("Sword"), value: 50 });
    assert_eq!(
        ledger.buy_nft("alice", "bob", 0),
        Err(ActionError::NotFound { entity: Entity::Listing })
    );
    assert_eq!(ledger.sell_nft("bob", 0, 5 * SCALE), Ok(()));
    assert_eq!(
        ledger.buy_nft("alice", "bob", 1),
        Err(ActionError::NotFound { entity: Entity::Listing })
    );
    assert_eq!(ledger.buy_nft("alice", "bob", 0), Err(ActionError::InsufficientFunds));
    assert_eq!(ledger.buy_nft("ghost", "bob", 0), Err(ActionError::InsufficientFunds));
    ledger.full_gamefi_runtime.credit("alice", SCALE);
    ledger.full_gamefi_runtime.take_item("bob", 0);
    assert_eq!(
        ledger.buy_nft("alice", "bob", 0),
        Err(ActionError::NotFound { entity: Entity::SellerOrNft })
    );
    assert_eq!(
        ledger.process_action(Action::BuyNft {
            buyer: text("alice"),
            seller: text("bob"),
            nft_index: 0,
        }),
        error("Seller or NFT not found")
    );
    assert_eq!(balance_of(&ledger, "alice"), 5 * SCALE);
    assert_eq!(ledger.nft_marketplace.get("bob"), Some(&vec![(0, 5 * SCALE)]));
}

#[test]
fn a_buy_uses_the_first_listing_and_removes_all_for_that_item() {
    let mut ledger = ledger_with(&[("bob", 0), ("alice", 9 * SCALE)]);
    for name in ["Sword", "Bow"] {
        ledger.full_gamefi_runtime.give_item("bob", Item { name: text(name), value: 1 });
    }
    assert_eq!(ledger.sell_nft("bob", 1, 7 * SCALE), Ok(()));
    assert_eq!(ledger.sell_nft("bob", 0, 3 * SCALE), Ok(()));
    assert_eq!(ledger.sell_nft("bob", 0, 8 * SCALE), Ok(()));
    assert_eq!(ledger.buy_nft("alice", "bob", 0), Ok(()));
    assert_eq!(balance_of(&ledger, "alice"), 6 * SCALE);
    assert_eq!(balance_of(&ledger, "bob"), 3 * SCALE);
    assert_eq!(ledger.nft_marketplace.get("bob"), Some(&vec![(1, 7 * SCALE)]));
    assert_eq!(
        ledger.full_gamefi_runtime.players.values[0].inventory,
        vec![Item { name: text("Bow"), value: 1 }]
    );
    assert_eq!(ledger.get_nft_listings(), vec![]);
}

#[test]
fn a_seller_can_buy_back_its_own_item() {
    let mut ledger = ledger_with(&[("bob", 5 * SCALE)]);
    for name in ["Sword", "Bow"] {
        ledger.full_gamefi_runtime.give_item("bob", Item { name: text(name), value: 1 });
    }
    assert_eq!(ledger.sell_nft("bob", 0, 5 * SCALE), Ok(()));
    assert_eq!(ledger.buy_nft("bob", "bob", 0), Ok(()));
    assert_eq!(balance_of(&ledger, "bob"), 5 * SCALE);
    assert_eq!(
        ledger.full_gamefi_runtime.players.values[0].inventory,
        vec![Item { name: text("Bow"), value: 1 }, Item { name: text("Sword"), value: 1 }]
    );
}

#[test]
fn uploading_costs_five_units_and_earns_reputation() {
    let mut ledger = ledger_with(&[("alice", 6 * SCALE)]);
    assert_eq!(
        upload(&mut ledger, "alice", "v1"),
        ActionResult::ContentUploaded { player: text("alice"), content_id: text("v1") }
    );
    assert_eq!(balance_of(&ledger, "alice"), SCALE);
    assert_eq!(ledger.reputations.amount("alice"), 5);
    assert_eq!(
        ledger.process_action(Action::GetVideos),
        ActionResult::Videos { videos: vec![(text("v1"), text("alice"), text("a title"), 0)] }
    );
    assert_eq!(upload(&mut ledger, "alice", "v2"), error("Insufficient DTOSHI"));
    assert_eq!(upload(&mut ledger, "ghost", "v2"), error("Insufficient DTOSHI"));
    assert_eq!(ledger.content.len(), 1);
    assert_eq!(balance_of(&ledger, "alice"), SCALE);
    assert_eq!(ledger.reputations.amount("alice"), 5);
}

#[test]
fn uploading_again_under_an_id_starts_the_record_afresh() {
    let mut ledger = ledger_with(&[("alice", 10 * SCALE), ("bob", 0)]);
    upload(&mut ledger, "alice", "v1");
    assert_eq!(ledger.like_content("bob", "v1"), Ok(()));
    assert_eq!(ledger.view_content("bob", "v1"), Ok(()));
    upload(&mut ledger, "alice", "v1");
    assert_eq!(ledger.content.len(), 1);
    assert_eq!(ledger.get_videos(), vec![(text("v1"), text("alice"), text("a title"), 0)]);
    assert_eq!(ledger.like_content("bob", "v1"), Ok(()));
}

#[test]
fn a_like_on_content_rewards_the_creator_once() {
    let mut ledger = ledger_with(&[("alice", 5 * SCALE), ("bob", 0)]);
    upload(&mut ledger, "alice", "v1");
    let liked = ledger
        .process_action(Action::LikeContent { player: text("bob"), content_id: text("v1") });
    assert_eq!(liked, ActionResult::ContentLiked { player: text("bob"), content_id: text("v1") });
    assert_eq!(balance_of(&ledger, "alice"), SCALE);
    assert_eq!(balance_of(&ledger, "bob"), 0);
    assert_eq!(ledger.reputations.amount("bob"), 1);
    assert_eq!(ledger.daily_rewards.amount("alice"), SCALE);
    assert_eq!(ledger.content.values[0].likes, vec![text("bob")]);
    let again = ledger
        .process_action(Action::LikeContent { player: text("bob"), content_id: text("v1") });
    assert_eq!(again, error("Already liked"));
    assert_eq!(balance_of(&ledger, "alice"), SCALE);
    assert_eq!(ledger.reputations.amount("bob"), 1);
    assert_eq!(ledger.daily_rewards.amount("alice"), SCALE);
    assert_eq!(ledger.content.values[0].likes, vec![text("bob")]);
    assert_eq!(
        ledger.like_content("bob", "v1"),
        Err(ActionError::AlreadyDone { action: OnceOnly::Like })
    );
    assert_eq!(ledger.like_content("alice", "v1"), Ok(()));
    assert_eq!(ledger.content.values[0].likes, vec![text("bob"), text("alice")]);
}

#[test]
fn actions_on_missing_content_are_rejected() {
    let mut ledger = ledger_with(&[("bob", 0)]);
    assert_eq!(
        ledger.process_action(Action::LikeContent { player: text("bob"), content_id: text("v") }),
        error("Content not found")
    );
    assert_eq!(
        ledger.process_action(Action::CommentContent {
            player: text("bob"),
            content_id: text("v"),
            comment: text("hi"),
        }),
        error("Content not found")
    );
    assert_eq!(
        ledger.process_action(Action::ViewContent { player: text("bob"), content_id: text("v") }),
        error("Content not found")
    );
    assert_eq!(
        ledger.view_content("bob", "v"),
        Err(ActionError::NotFound { entity: Entity::Content })
    );
    assert_eq!(ledger.reputations.len(), 0);
    assert_eq!(ledger.daily_rewards.len(), 0);
}

#[test]
fn comments_on_content_reward_two_units_each() {
    let mut ledger = ledger_with(&[("alice", 5 * SCALE), ("bob", 0)]);
    upload(&mut ledger, "alice", "v1");
    for comment in ["first", "second"] {
        let result = ledger.process_action(Action::CommentContent {
            player: text("bob"),
            content_id: text("v1"),
            comment: text(comment),
        });
        assert_eq!(
            result,
            ActionResult::ContentCommented { player: text("bob"), content_id: text("v1") }
        );
    }
    assert_eq!(balance_of(&ledger, "alice"), 4 * SCALE);
    assert_eq!(ledger.reputations.amount("bob"), 2);
    assert_eq!(ledger.content.values[0].comments, vec![text("first"), text("second")]);
}

#[test]
fn a_view_rewards_by_the_reputation_of_the_viewer() {
    let mut ledger = ledger_with(&[("alice", 5 * SCALE), ("bob", 0), ("carol", 0)]);
    upload(&mut ledger, "alice", "v1");
    ledger.add_reputation("carol", 101);
    assert_eq!(ledger.get_mining_reward("bob"), 100_000_000);
    assert_eq!(ledger.get_mining_reward("carol"), 120_000_000);
    assert_eq!(
        ledger.process_action(Action::ViewContent { player: text("bob"), content_id: text("v1") }),
        ActionResult::ContentViewed { player: text("bob"), content_id: text("v1") }
    );
    assert_eq!(balance_of(&ledger, "alice"), 100_000_000);
    assert_eq!(ledger.view_content("carol", "v1"), Ok(()));
    assert_eq!(balance_of(&ledger, "alice"), 220_000_000);
    assert_eq!(ledger.content.values[0].views, 2);
    assert_eq!(ledger.reputations.amount("bob"), 0);
    ledger.total_users = 50_000_001;
    assert_eq!(ledger.view_content("carol", "v1"), Ok(()));
    assert_eq!(balance_of(&ledger, "alice"), 221_200_000);
}

#[test]
fn posting_costs_three_units_and_earns_reputation() {
    let mut ledger = ledger_with(&[("alice", 5 * SCALE)]);
    assert_eq!(
        post(&mut ledger, "alice", "hello"),
        ActionResult::ContentPosted { player: text("alice"), post_id: text("hello") }
    );
    assert_eq!(balance_of(&ledger, "alice"), 2 * SCALE);
    assert_eq!(ledger.reputations.amount("alice"), 5);
    assert_eq!(post(&mut ledger, "alice", "again"), error("Insufficient DTOSHI"));
    assert_eq!(
        ledger.process_action(Action::GetPosts),
        ActionResult::Posts { posts: vec![(text("hello"), text("alice"), text("a caption"), 0, 0)] }
    );
}

#[test]
fn an_unpaid_like_on_a_post_rewards_the_creator() {
    let mut ledger = ledger_with(&[("alice", 3 * SCALE), ("bob", 0)]);
    post(&mut ledger, "alice", "hello");
    let liked = ledger.process_action(Action::LikePost {
        player: text("bob"),
        post_id: text("hello"),
        paid: false,
    });
    assert_eq!(
        liked,
        ActionResult::PostLiked { player: text("bob"), post_id: text("hello"), paid: false }
    );
    assert_eq!(balance_of(&ledger, "alice"), SCALE);
    assert_eq!(balance_of(&ledger, "bob"), 0);
    assert_eq!(ledger.reputations.amount("bob"), 1);
    assert_eq!((ledger.platform_pool, ledger.community_pool), (0, 0));
    assert_eq!(ledger.posts.values[0].reputation_points, 1);
    assert_eq!(ledger.get_posts(), vec![(text("hello"), text("alice"), text("a caption"), 1, 0)]);
}

#[test]
fn a_paid_like_is_split_between_creator_and_pools() {
    let mut ledger = ledger_with(&[("alice", 3 * SCALE), ("bob", 60_000_000)]);
    post(&mut ledger, "alice", "hello");
    let liked = ledger.process_action(Action::LikePost {
        player: text("bob"),
        post_id: text("hello"),
        paid: true,
    });
    assert_eq!(
        liked,
        ActionResult::PostLiked { player: text("bob"), post_id: text("hello"), paid: true }
    );
    assert_eq!(balance_of(&ledger, "bob"), 10_000_000);
    assert_eq!(balance_of(&ledger, "alice"), 40_000_000);
    assert_eq!(ledger.platform_pool, 5_000_000);
    assert_eq!(ledger.community_pool, 5_000_000);
    assert_eq!(
        (balance_of(&ledger, "alice") + ledger.platform_pool + ledger.community_pool),
        50_000_000
    );
    assert_eq!(ledger.reputations.amount("bob"), 2);
    assert_eq!(ledger.daily_rewards.amount("alice"), 40_000_000);
}

#[test]
fn a_paid_like_without_funds_changes_nothing() {
    let mut ledger = ledger_with(&[("alice", 3 * SCALE), ("bob", 49_999_999)]);
    post(&mut ledger, "alice", "hello");
    let liked = ledger.process_action(Action::LikePost {
        player: text("bob"),
        post_id: text("hello"),
        paid: true,
    });
    assert_eq!(liked, error("Insufficient DTOSHI"));
    assert_eq!(ledger.like_post("ghost", "hello", true), Err(ActionError::InsufficientFunds));
    assert_eq!(balance_of(&ledger, "bob"), 49_999_999);
    assert_eq!(balance_of(&ledger, "alice"), 0);
    assert_eq!(ledger.daily_rewards.amount("alice"), 0);
    assert_eq!(ledger.daily_rewards.len(), 0);
    assert!(ledger.posts.values[0].likes.is_empty());
    assert_eq!(ledger.posts.values[0].reputation_points, 0);
    assert_eq!(ledger.reputations.amount("bob"), 0);
    assert_eq!((ledger.platform_pool, ledger.community_pool), (0, 0));
}

#[test]
fn a_post_is_liked_once_per_player_paid_or_not() {
    let mut ledger = ledger_with(&[("alice", 3 * SCALE), ("bob", SCALE)]);
    post(&mut ledger, "alice", "hello");
    assert_eq!(ledger.like_post("bob", "hello", false), Ok(()));
    let snapshot = (
        balance_of(&ledger, "alice"),
        balance_of(&ledger, "bob"),
        ledger.platform_pool,
        ledger.posts.values[0].clone(),
        ledger.reputations.clone(),
        ledger.daily_rewards.clone(),
    );
    for paid in [true, false] {
        let again = ledger.process_action(Action::LikePost {
            player: text("bob"),
            post_id: text("hello"),
            paid,
        });
        assert_eq!(again, error("Already liked"));
        assert_eq!(
            ledger.like_post("bob", "hello", paid),
            Err(ActionError::AlreadyDone { action: OnceOnly::Like })
        );
    }
    assert_eq!(
        snapshot,
        (
            balance_of(&ledger, "alice"),
            balance_of(&ledger, "bob"),
            ledger.platform_pool,
            ledger.posts.values[0].clone(),
            ledger.reputations.clone(),
            ledger.daily_rewards.clone(),
        )
    );
    assert_eq!(ledger.posts.values[0].likes, vec![text("bob")]);
}

#[test]
fn actions_on_a_missing_post_are_rejected() {
    let mut ledger = ledger_with(&[("bob", 5 * SCALE)]);
    assert_eq!(
        ledger.process_action(Action::LikePost {
            player: text("bob"),
            post_id: text("p"),
            paid: true,
        }),
        error("Post not found")
    );
    assert_eq!(
        ledger.process_action(Action::CommentPost {
            player: text("bob"),
            post_id: text("p"),
            comment: text("hi"),
        }),
        error("Post not found")
    );
    assert_eq!(
        ledger.process_action(Action::BoostPost {
            player: text("bob"),
            post_id: text("p"),
            tokens: 1,
        }),
        error("Post not found")
    );
    assert_eq!(
        ledger.boost_post("bob", "p", 2),
        Err(ActionError::NotFound { entity: Entity::Post })
    );
    assert_eq!(balance_of(&ledger, "bob"), 5 * SCALE);
}

#[test]
fn a_comment_on_a_post_rewards_one_unit() {
    let mut ledger = ledger_with(&[("alice", 3 * SCALE), ("bob", 0)]);
    post(&mut ledger, "alice", "hello");
    let result = ledger.process_action(Action::CommentPost {
        player: text("bob"),
        post_id: text("hello"),
        comment: text("nice"),
    });
    assert_eq!(result, ActionResult::PostCommented { player: text("bob"), post_id: text("hello") });
    assert_eq!(balance_of(&ledger, "alice"), SCALE);
    assert_eq!(ledger.reputations.amount("bob"), 1);
    assert_eq!(ledger.posts.values[0].comments, vec![text("nice")]);
    assert_eq!(ledger.posts.values[0].reputation_points, 1);
}

#[test]
fn a_boost_out_of_range_is_rejected_without_touching_balances() {
    let mut ledger = ledger_with(&[("alice", 10 * SCALE)]);
    post(&mut ledger, "alice", "hello");
    for tokens in [3, 0, 4, u64::MAX, 18_446_744_074] {
        let result = ledger.process_action(Action::BoostPost {
            player: text("alice"),
            post_id: text("hello"),
            tokens,
        });
        assert_eq!(result, error("Boost cost must be 1-2 DTOSHI"));
        assert_eq!(
            ledger.boost_post("alice", "hello", tokens),
            Err(ActionError::InvalidRange { field: RangeField::BoostCost })
        );
    }
    assert_eq!(balance_of(&ledger, "alice"), 7 * SCALE);
    assert_eq!(ledger.posts.values[0].boosts, 0);
    assert_eq!((ledger.platform_pool, ledger.community_pool), (0, 0));
    assert_eq!(ledger.daily_rewards.len(), 0);
}

#[test]
fn only_the_creator_can_boost_a_post() {
    let mut ledger = ledger_with(&[("alice", 3 * SCALE), ("bob", 5 * SCALE), ("carol", 0)]);
    post(&mut ledger, "alice", "hello");
    let result = ledger.process_action(Action::BoostPost {
        player: text("bob"),
        post_id: text("hello"),
        tokens: 1,
    });
    assert_eq!(result, error("Only post creator can boost"));
    assert_eq!(ledger.boost_post("carol", "hello", 1), Err(ActionError::PermissionDenied));
    assert_eq!(ledger.boost_post("ghost", "hello", 2), Err(ActionError::PermissionDenied));
    assert_eq!(balance_of(&ledger, "bob"), 5 * SCALE);
    assert_eq!(balance_of(&ledger, "alice"), 0);
    assert_eq!(ledger.posts.values[0].boosts, 0);
    assert_eq!(ledger.boost_post("alice", "hello", 1), Err(ActionError::InsufficientFunds));
}

#[test]
fn a_boost_is_split_between_creator_and_pools() {
    let mut ledger = ledger_with(&[("alice", 6 * SCALE)]);
    post(&mut ledger, "alice", "hello");
    let result = ledger.process_action(Action::BoostPost {
        player: text("alice"),
        post_id: text("hello"),
        tokens: 2,
    });
    assert_eq!(
        result,
        ActionResult::PostBoosted { player: text("alice"), post_id: text("hello"), tokens: 2 }
    );
    assert_eq!(balance_of(&ledger, "alice"), 3 * SCALE - 2 * SCALE + 1_600_000_000);
    assert_eq!(ledger.platform_pool, 200_000_000);
    assert_eq!(ledger.community_pool, 200_000_000);
    assert_eq!(ledger.posts.values[0].boosts, 2);
    assert_eq!(ledger.posts.values[0].reputation_points, 2);
    assert_eq!(ledger.daily_rewards.amount("alice"), 1_600_000_000);
    assert_eq!(ledger.boost_post("alice", "hello", 1), Ok(()));
    assert_eq!(ledger.platform_pool, 300_000_000);
    assert_eq!(ledger.posts.values[0].boosts, 3);
    assert_eq!(ledger.get_posts(), vec![(text("hello"), text("alice"), text("a caption"), 0, 3)]);
}

#[test]
fn the_daily_cap_is_never_passed() {
    let mut ledger = ledger_with(&[("alice", 5 * SCALE), ("bob", 0)]);
    upload(&mut ledger, "alice", "v1");
    let mut last = 0;
    for round in 0..260u64 {
        assert_eq!(ledger.comment_content("bob", "v1", text("again")), Ok(()));
        let total = ledger.daily_rewards.amount("alice");
        assert!(total >= last);
        assert!(total <= DAILY_CEILING);
        assert_eq!(total, std::cmp::min((round + 1) * 2 * SCALE, DAILY_CEILING));
        assert_eq!(balance_of(&ledger, "alice"), total);
        last = total;
    }
    assert_eq!(last, DAILY_CEILING);
    assert_eq!(ledger.content.values[0].comments.len(), 260);
    assert_eq!(ledger.reputations.amount("bob"), 260);
}

#[test]
fn the_cap_clips_the_reward_that_crosses_it() {
    let mut ledger = ledger_with(&[("alice", 0)]);
    assert_eq!(ledger.check_daily_cap("alice", 499 * SCALE + 1), 499 * SCALE + 1);
    assert_eq!(ledger.check_daily_cap("alice", 2 * SCALE), SCALE - 1);
    assert_eq!(ledger.check_daily_cap("alice", u64::MAX), 0);
    assert_eq!(ledger.check_daily_cap("bob", u64::MAX), DAILY_CEILING);
    assert_eq!(ledger.daily_rewards.amount("alice"), DAILY_CEILING);
    assert_eq!(ledger.daily_rewards.amount("bob"), DAILY_CEILING);
    assert_eq!(balance_of(&ledger, "alice"), 0);
}

#[test]
fn a_reward_for_a_creator_who_is_no_player_still_counts_against_the_cap() {
    let mut ledger = Blockchain::with_seed(1);
    ledger.pay_creator("ghost", 3 * SCALE);
    assert_eq!(ledger.daily_rewards.amount("ghost"), 3 * SCALE);
    assert_eq!(ledger.full_gamefi_runtime.players.len(), 0);
}

#[test]
fn the_burn_is_reported_and_nothing_is_deducted() {
    let ledger = ledger_with(&[("alice", 5 * SCALE)]);
    assert_eq!(ledger.burn_tokens(5 * SCALE), 50_000_000);
    assert_eq!(ledger.burn_tokens(99), 0);
    assert_eq!(balance_of(&ledger, "alice"), 5 * SCALE);
}

#[test]
fn the_time_sweep_rewards_every_post_and_content_once() {
    let mut ledger = ledger_with(&[("alice", 11 * SCALE), ("bob", 3 * SCALE)]);
    post(&mut ledger, "alice", "hello");
    post(&mut ledger, "bob", "again");
    upload(&mut ledger, "alice", "v1");
    post(&mut ledger, "alice", "third");
    assert_eq!(balance_of(&ledger, "alice"), 0);
    ledger.add_reputation("bob", 200);
    ledger.distribute_time_rewards();
    assert_eq!(balance_of(&ledger, "alice"), 300_000_000);
    assert_eq!(balance_of(&ledger, "bob"), 150_000_000);
    assert_eq!(ledger.daily_rewards.amount("alice"), 300_000_000);
    assert_eq!(ledger.daily_rewards.keys, vec![text("alice"), text("bob")]);
}

#[test]
fn listings_whose_item_is_gone_are_left_out() {
    let mut ledger = ledger_with(&[("bob", 0), ("carol", 0)]);
    for name in ["Sword", "Bow"] {
        ledger.full_gamefi_runtime.give_item("bob", Item { name: text(name), value: 1 });
    }
    ledger.full_gamefi_runtime.give_item("carol", Item { name: text("Ring"), value: 1 });
    assert_eq!(ledger.sell_nft("bob", 1, 7), Ok(()));
    assert_eq!(ledger.sell_nft("carol", 0, 9), Ok(()));
    assert_eq!(ledger.sell_nft("bob", 0, 8), Ok(()));
    assert_eq!(
        ledger.get_nft_listings(),
        vec![
            (text("bob"), 1, text("Bow"), 7),
            (text("bob"), 0, text("Sword"), 8),
            (text("carol"), 0, text("Ring"), 9),
        ]
    );
    ledger.full_gamefi_runtime.take_item("bob", 0);
    assert_eq!(
        ledger.get_nft_listings(),
        vec![(text("bob"), 0, text("Bow"), 8), (text("carol"), 0, text("Ring"), 9)]
    );
}

#[test]
fn gameplay_actions_follow_the_given_draws() {
    let mut ledger = Blockchain::with_seed(1);
    let mut draws = Draws::none();
    draws.roll1 = 1;
    draws.roll2 = 2;
    draws.flips = vec![true, false];
    assert_eq!(
        ledger.process_action_with(
            Action::Battle { player1: text("alice"), player2: text("bob") },
            &draws
        ),
        ActionResult::BattleResult { winner: text("bob"), loser: text("alice") }
    );
    assert_eq!(
        ledger.full_gamefi_runtime.players.values[1].inventory,
        vec![Item { name: text("Battle Trophy"), value: 20 }]
    );
    assert_eq!(
        ledger.process_action_with(
            Action::RecordActivity { player: text("alice"), activity_type: 4 },
            &draws
        ),
        ActionResult::ActivityRecorded { player: text("alice"), activity_type: 4, points: 20 }
    );
    assert_eq!(
        ledger.process_action_with(
            Action::RecordActivity { player: text("ghost"), activity_type: 9 },
            &draws
        ),
        ActionResult::ActivityRecorded { player: text("ghost"), activity_type: 9, points: 0 }
    );
    assert_eq!(
        ledger.process_action_with(
            Action::TradeItems {
                player1: text("alice"),
                player1_item_index: 0,
                player2: text("bob"),
                player2_item_index: 0,
            },
            &draws
        ),
        ActionResult::ItemsTraded { player1: text("alice"), player2: text("bob"), success: true }
    );
    assert_eq!(
        ledger.full_gamefi_runtime.players.values[0].inventory,
        vec![
            Item { name: text("Battle Trophy"), value: 20 },
            Item { name: text("Activity 3 Reward"), value: 5 },
        ]
    );
    assert_eq!(
        ledger.full_gamefi_runtime.players.values[1].inventory,
        vec![Item { name: text("Activity 4 Reward"), value: 20 }]
    );
    assert_eq!(
        ledger.process_action_with(
            Action::TradeItems {
                player1: text("alice"),
                player1_item_index: 2,
                player2: text("bob"),
                player2_item_index: 0,
            },
            &draws
        ),
        ActionResult::ItemsTraded { player1: text("alice"), player2: text("bob"), success: false }
    );
    assert_eq!(
        ledger.process_action_with(Action::DistributeMtoshiRewards, &draws),
        ActionResult::MtoshiDistributed { total_reward: 500 }
    );
    assert_eq!(
        ledger.process_action_with(Action::GetMtoshiBalance { player: text("alice") }, &draws),
        ActionResult::MtoshiBalance { player: text("alice"), balance: 277 }
    );
    assert_eq!(
        ledger.process_action_with(Action::GetMtoshiBalance { player: text("ghost") }, &draws),
        ActionResult::MtoshiBalance { player: text("ghost"), balance: 0 }
    );
    assert_eq!(
        ledger.process_action_with(Action::ShowLeaderboard, &draws),
        ActionResult::Leaderboard {
            players: vec![(text("alice"), 1, 50, 0, 277), (text("bob"), 1, 40, 0, 222)],
        }
    );
    assert_eq!(
        ledger.show_leaderboard(),
        vec![(text("alice"), 1, 50, 0, 277), (text("bob"), 1, 40, 0, 222)]
    );
}

#[test]
fn mining_follows_the_given_draws() {
    let mut ledger = ledger_with(&[("alice", 0)]);
    let mut draws = Draws::none();
    draws.nonce = 5;
    draws.computed_hash = 3001;
    draws.timestamp = 77;
    draws.flips = vec![true];
    let result = ledger
        .process_action_with(Action::MineBlock { miner: text("alice"), index: 4 }, &draws);
    match result {
        ActionResult::BlockMined { miner, block: Some(block) } => {
            assert_eq!(miner, "alice");
            assert_eq!(block.index, 4);
            assert_eq!(block.timestamp, 77);
            assert_eq!(block.nonce, 5);
            assert_eq!(block.hash, "bb9");
            assert_eq!(block.previous_hash, "previous_hash");
            assert_eq!(block.transactions.len(), 1);
        }
        other => panic!("unexpected answer: {:?}", other),
    }
    draws.computed_hash = 3100;
    assert_eq!(
        ledger.process_action_with(Action::MineBlock { miner: text("alice"), index: 5 }, &draws),
        ActionResult::BlockMined { miner: text("alice"), block: None }
    );
    draws.picks = vec![(3, false)];
    assert_eq!(
        ledger.process_action_with(Action::SimulateActivity, &draws),
        ActionResult::ActivitySimulated
    );
    assert_eq!(ledger.full_gamefi_runtime.players.values[0].activity_points, 20);
}

#[test]
fn drawn_actions_answer_in_kind() {
    let mut ledger = Blockchain::with_seed(5);
    assert_eq!(
        ledger.process_action(Action::RecordActivity { player: text("alice"), activity_type: 2 }),
        ActionResult::ActivityRecorded { player: text("alice"), activity_type: 2, points: 15 }
    );
    for _ in 0..20 {
        let battle = Action::Battle { player1: text("alice"), player2: text("bob") };
        match ledger.process_action(battle) {
            ActionResult::BattleResult { winner, loser } => {
                assert!(
                    (winner == "alice" && loser == "bob") || (winner == "bob" && loser == "alice")
                );
            }
            other => panic!("unexpected answer: {:?}", other),
        }
    }
    let points: u64 =
        ledger.full_gamefi_runtime.players.values.iter().map(|p| p.activity_points).sum();
    assert_eq!(points, 20 * 15);
    assert_eq!(ledger.process_action(Action::SimulateActivity), ActionResult::ActivitySimulated);
    ledger.simulate_player_activity();
    let mut mined = 0;
    for index in 0..300 {
        match ledger.process_action(Action::MineBlock { miner: text("alice"), index }) {
            ActionResult::BlockMined { miner, block } => {
                assert_eq!(miner, "alice");
                if let Some(block) = block {
                    assert_eq!(block.index, index);
                    assert_eq!(block.previous_hash, "previous_hash");
                    mined += 1;
                }
            }
            other => panic!("unexpected answer: {:?}", other),
        }
    }
    assert!(mined > 0);
    assert_eq!(ledger.full_gamefi_runtime.mining_pool.amount("alice"), 50 * mined);
}

#[test]
fn every_rejection_has_its_message() {
    let cases = [
        (ActionError::InsufficientFunds, "Insufficient DTOSHI"),
        (ActionError::NotFound { entity: Entity::Content }, "Content not found"),
        (ActionError::NotFound { entity: Entity::Post }, "Post not found"),
        (ActionError::NotFound { entity: Entity::Seller }, "Seller not found"),
        (ActionError::NotFound { entity: Entity::Listing }, "NFT not listed"),
        (ActionError::NotFound { entity: Entity::SellerOrNft }, "Seller or NFT not found"),
        (ActionError::AlreadyDone { action: OnceOnly::Like }, "Already liked"),
        (ActionError::InvalidRange { field: RangeField::NftIndex }, "Invalid NFT index"),
        (
            ActionError::InvalidRange { field: RangeField::BoostCost },
            "Boost cost must be 1-2 DTOSHI",
        ),
        (ActionError::PermissionDenied, "Only post creator can boost"),
    ];
    for (kind, message) in cases {
        assert_eq!(kind.message(), message);
        assert_eq!(ActionResult::rejected(kind), error(message));
    }
}

#[test]
fn a_ledger_changed_through_its_actions_stays_well_formed() {
    let mut ledger = ledger_with(&[("alice", 40 * SCALE), ("bob", 20 * SCALE)]);
    assert!(ledger.is_well_formed());
    let actions = vec![
        Action::RequestTokens { player: text("alice"), token: text("GOLD") },
        Action::RequestTokens { player: text("carol"), token: text("IRON") },
        Action::MintNft { player: text("alice"), name: text("Sword"), value: 50 },
        Action::SellNft { seller: text("alice"), nft_index: 0, price: 5 * SCALE },
        Action::BuyNft { buyer: text("bob"), seller: text("alice"), nft_index: 0 },
        Action::UploadContent { player: text("alice"), content_id: text("clip"), title: text("t") },
        Action::LikeContent { player: text("bob"), content_id: text("clip") },
        Action::LikeContent { player: text("bob"), content_id: text("clip") },
        Action::CommentContent {
            player: text("bob"),
            content_id: text("clip"),
            comment: text("nice"),
        },
        Action::ViewContent { player: text("carol"), content_id: text("clip") },
        Action::PostContent { player: text("bob"), post_id: text("hello"), caption: text("c") },
        Action::LikePost { player: text("alice"), post_id: text("hello"), paid: true },
        Action::CommentPost { player: text("alice"), post_id: text("hello"), comment: text("hi") },
        Action::BoostPost { player: text("bob"), post_id: text("hello"), tokens: 2 },
        Action::Battle { player1: text("alice"), player2: text("dave") },
        Action::TradeItems {
            player1: text("alice"),
            player1_item_index: 0,
            player2: text("bob"),
            player2_item_index: 0,
        },
        Action::RecordActivity { player: text("alice"), activity_type: 4 },
        Action::SimulateActivity,
        Action::MineBlock { miner: text("alice"), index: 1 },
        Action::DistributeMtoshiRewards,
        Action::ShowLeaderboard,
        Action::GetPosts,
        Action::GetVideos,
        Action::GetNftListings,
    ];
    for action in actions {
        ledger.process_action(action);
        assert!(ledger.is_well_formed());
    }
    ledger.distribute_time_rewards();
    ledger.gamefi_runtime.simulate_player_activity();
    assert!(ledger.is_well_formed());
}

#[test]
fn a_ledger_tampered_with_is_found_out() {
    let fresh = || {
        let mut ledger = ledger_with(&[("alice", 10 * SCALE), ("bob", 0)]);
        upload(&mut ledger, "alice", "clip");
        post(&mut ledger, "alice", "hello");
        assert_eq!(ledger.like_content("bob", "clip"), Ok(()));
        assert_eq!(ledger.like_post("bob", "hello", false), Ok(()));
        ledger.process_action(Action::RequestTokens { player: text("bob"), token: text("GOLD") });
        assert!(ledger.is_well_formed());
        ledger
    };
    let mut ledger = fresh();
    ledger.content.values[0].likes.push(text("bob"));
    assert!(!ledger.is_well_formed());
    let mut ledger = fresh();
    ledger.posts.values[0].likes.push(text("bob"));
    assert!(!ledger.is_well_formed());
    let mut ledger = fresh();
    ledger.daily_rewards.values[0] = DAILY_CEILING + 1;
    assert!(!ledger.is_well_formed());
    let mut ledger = fresh();
    ledger.reputations.keys.push(text("alice"));
    assert!(!ledger.is_well_formed());
    let mut ledger = fresh();
    ledger.reputations.values.push(1);
    ledger.reputations.keys.push(text("alice"));
    assert!(!ledger.is_well_formed());
    let mut ledger = fresh();
    ledger.full_gamefi_runtime.players.values[0].level = 0;
    assert!(!ledger.is_well_formed());
    let mut ledger = fresh();
    ledger.full_gamefi_runtime.players.values[0].strength = 9;
    assert!(!ledger.is_well_formed());
    let mut ledger = fresh();
    ledger.full_gamefi_runtime.players.values[0].experience = 100;
    assert!(!ledger.is_well_formed());
    let mut ledger = fresh();
    ledger.full_gamefi_runtime.players.values[1].id = text("alice");
    assert!(!ledger.is_well_formed());
    let mut ledger = fresh();
    ledger.gamefi_runtime.players.values[0].values.clear();
    assert!(!ledger.is_well_formed());
}

#[test]
fn every_message_is_recognised_as_its_rejection() {
    let kinds = [
        ActionError::InsufficientFunds,
        ActionError::NotFound { entity: Entity::Content },
        ActionError::NotFound { entity: Entity::Post },
        ActionError::NotFound { entity: Entity::Seller },
        ActionError::NotFound { entity: Entity::Listing },
        ActionError::NotFound { entity: Entity::SellerOrNft },
        ActionError::AlreadyDone { action: OnceOnly::Like },
        ActionError::InvalidRange { field: RangeField::NftIndex },
        ActionError::InvalidRange { field: RangeField::BoostCost },
        ActionError::PermissionDenied,
    ];
    for kind in kinds {
        assert_eq!(ActionError::from_message(&kind.message()), Some(kind));
        assert_eq!(ActionResult::rejected(kind).error_kind(), Some(kind));
    }
    assert_eq!(ActionError::from_message("already liked"), None);
    assert_eq!(ActionError::from_message("Already liked "), None);
    assert_eq!(ActionError::from_message(""), None);
    assert_eq!(error("something else").error_kind(), None);
    assert_eq!(ActionResult::ActivitySimulated.error_kind(), None);
    let mut ledger = ledger_with(&[("bob", 0)]);
    let answer = upload(&mut ledger, "bob", "clip");
    assert_eq!(answer.error_kind(), Some(ActionError::InsufficientFunds));
}
