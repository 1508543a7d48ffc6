//! The protocol of the ledger: the actions that can be submitted, the
//! results that come back, and the ways in which an action is rejected.

use crate::runtime::catena_node::{Block, BlockView};
use crate::runtime::rules::block_view;
use vstd::prelude::*;

verus! {

/// What a rejected action looked for and did not find.
#[derive(Debug, Clone, Copy, PartialEq, Eq, Structural)]
pub enum Entity {
    Content,
    Post,
    Seller,
    Listing,
    SellerOrNft,
}

/// The field of an action whose value lay outside its range.
#[derive(Debug, Clone, Copy, PartialEq, Eq, Structural)]
pub enum RangeField {
    NftIndex,
    BoostCost,
}

/// What can be done only once.
#[derive(Debug, Clone, Copy, PartialEq, Eq, Structural)]
pub enum OnceOnly {
    Like,
}

/// Why an action was rejected. A rejected action leaves the ledger as it
/// was.
#[derive(Debug, Clone, Copy, PartialEq, Eq, Structural)]
pub enum ActionError {
    InsufficientFunds,
    NotFound { entity: Entity },
    AlreadyDone { action: OnceOnly },
    InvalidRange { field: RangeField },
    PermissionDenied,
}

impl ActionError {
    /// The message that reports this rejection.
    pub open spec fn text(self) -> Seq<char> {
        match self {
            ActionError::InsufficientFunds => "Insufficient DTOSHI"@,
            ActionError::NotFound { entity: Entity::Content } => "Content not found"@,
            ActionError::NotFound { entity: Entity::Post } => "Post not found"@,
            ActionError::NotFound { entity: Entity::Seller } => "Seller not found"@,
            ActionError::NotFound { entity: Entity::Listing } => "NFT not listed"@,
            ActionError::NotFound { entity: Entity::SellerOrNft } => "Seller or NFT not found"@,
            ActionError::AlreadyDone { action: OnceOnly::Like } => "Already liked"@,
            ActionError::InvalidRange { field: RangeField::NftIndex } => "Invalid NFT index"@,
            ActionError::InvalidRange { field: RangeField::BoostCost } => {
                "Boost cost must be 1-2 DTOSHI"@
            },
            ActionError::PermissionDenied => "Only post creator can boost"@,
        }
    }

    /// Recognises the rejection that `message` reports, if it reports one.
    pub fn from_message(message: &str) -> (kind: Option<ActionError>)
        ensures
            match kind {
                Some(error) => error.text() == message@,
                None => forall|error: ActionError| error.text() != message@,
            },
    {
        if message.eq("Insufficient DTOSHI") {
            Some(ActionError::InsufficientFunds)
        } else if message.eq("Content not found") {
            Some(ActionError::NotFound { entity: Entity::Content })
        } else if message.eq("Post not found") {
            Some(ActionError::NotFound { entity: Entity::Post })
        } else if message.eq("Seller not found") {
            Some(ActionError::NotFound { entity: Entity::Seller })
        } else if message.eq("NFT not listed") {
            Some(ActionError::NotFound { entity: Entity::Listing })
        } else if message.eq("Seller or NFT not found") {
            Some(ActionError::NotFound { entity: Entity::SellerOrNft })
        } else if message.eq("Already liked") {
            Some(ActionError::AlreadyDone { action: OnceOnly::Like })
        } else if message.eq("Invalid NFT index") {
            Some(ActionError::InvalidRange { field: RangeField::NftIndex })
        } else if message.eq("Boost cost must be 1-2 DTOSHI") {
            Some(ActionError::InvalidRange { field: RangeField::BoostCost })
        } else if message.eq("Only post creator can boost") {
            Some(ActionError::PermissionDenied)
        } else {
            None
        }
    }

    /// Writes the message that reports this rejection.
    pub fn message(&self) -> (message: String)
        ensures
            message@ == self.text(),
    {
        match self {
            ActionError::InsufficientFunds => "Insufficient DTOSHI".to_string(),
            ActionError::NotFound { entity: Entity::Content } => "Content not found".to_string(),
            ActionError::NotFound { entity: Entity::Post } => "Post not found".to_string(),
            ActionError::NotFound { entity: Entity::Seller } => "Seller not found".to_string(),
            ActionError::NotFound { entity: Entity::Listing } => "NFT not listed".to_string(),
            ActionError::NotFound { entity: Entity::SellerOrNft } => {
                "Seller or NFT not found".to_string()
            },
            ActionError::AlreadyDone { action: OnceOnly::Like } => "Already liked".to_string(),
            ActionError::InvalidRange { field: RangeField::NftIndex } => {
                "Invalid NFT index".to_string()
            },
            ActionError::InvalidRange { field: RangeField::BoostCost } => {
                "Boost cost must be 1-2 DTOSHI".to_string()
            },
            ActionError::PermissionDenied => "Only post creator can boost".to_string(),
        }
    }
}

/// A request to the ledger.
#[derive(Debug, Clone, PartialEq, Eq)]
pub enum Action {
    RequestTokens { player: String, token: String },
    GetBalance { player: String, token: String },
    GetPlayer { player: String },
    GetContentStats { player: String },
    SimulateActivity,
    MineBlock { miner: String, index: u64 },
    RecordActivity { player: String, activity_type: u32 },
    Battle { player1: String, player2: String },
    TradeItems {
        player1: String,
        player1_item_index: u32,
        player2: String,
        player2_item_index: u32,
    },
    DistributeMtoshiRewards,
    ShowLeaderboard,
    GetMtoshiBalance { player: String },
    MintNft { player: String, name: String, value: u64 },
    BuyNft { buyer: String, seller: String, nft_index: u32 },
    SellNft { seller: String, nft_index: u32, price: u64 },
    UploadContent { player: String, content_id: String, title: String },
    LikeContent { player: String, content_id: String },
    CommentContent { player: String, content_id: String, comment: String },
    ViewContent { player: String, content_id: String },
    PostContent { player: String, post_id: String, caption: String },
    LikePost { player: String, post_id: String, paid: bool },
    CommentPost { player: String, post_id: String, comment: String },
    BoostPost { player: String, post_id: String, tokens: u64 },
    GetPosts,
    GetVideos,
    GetNftListings,
}

/// A request as a mathematical value.
pub enum ActionView {
    RequestTokens { player: Seq<char>, token: Seq<char> },
    GetBalance { player: Seq<char>, token: Seq<char> },
    GetPlayer { player: Seq<char> },
    GetContentStats { player: Seq<char> },
    SimulateActivity,
    MineBlock { miner: Seq<char>, index: u64 },
    RecordActivity { player: Seq<char>, activity_type: u32 },
    Battle { player1: Seq<char>, player2: Seq<char> },
    TradeItems {
        player1: Seq<char>,
        player1_item_index: u32,
        player2: Seq<char>,
        player2_item_index: u32,
    },
    DistributeMtoshiRewards,
    ShowLeaderboard,
    GetMtoshiBalance { player: Seq<char> },
    MintNft { player: Seq<char>, name: Seq<char>, value: u64 },
    BuyNft { buyer: Seq<char>, seller: Seq<char>, nft_index: u32 },
    SellNft { seller: Seq<char>, nft_index: u32, price: u64 },
    UploadContent { player: Seq<char>, content_id: Seq<char>, title: Seq<char> },
    LikeContent { player: Seq<char>, content_id: Seq<char> },
    CommentContent { player: Seq<char>, content_id: Seq<char>, comment: Seq<char> },
    ViewContent { player: Seq<char>, content_id: Seq<char> },
    PostContent { player: Seq<char>, post_id: Seq<char>, caption: Seq<char> },
    LikePost { player: Seq<char>, post_id: Seq<char>, paid: bool },
    CommentPost { player: Seq<char>, post_id: Seq<char>, comment: Seq<char> },
    BoostPost { player: Seq<char>, post_id: Seq<char>, tokens: u64 },
    GetPosts,
    GetVideos,
    GetNftListings,
}

impl View for Action {
    type V = ActionView;

    open spec fn view(&self) -> ActionView {
        match *self {
            Action::RequestTokens { player, token } => ActionView::RequestTokens {
                player: player@,
                token: token@,
            },
            Action::GetBalance { player, token } => ActionView::GetBalance {
                player: player@,
                token: token@,
            },
            Action::GetPlayer { player } => ActionView::GetPlayer { player: player@ },
            Action::GetContentStats { player } => ActionView::GetContentStats { player: player@ },
            Action::SimulateActivity => ActionView::SimulateActivity,
            Action::MineBlock { miner, index } => ActionView::MineBlock { miner: miner@, index },
            Action::RecordActivity { player, activity_type } => ActionView::RecordActivity {
                player: player@,
                activity_type,
            },
            Action::Battle { player1, player2 } => ActionView::Battle {
                player1: player1@,
                player2: player2@,
            },
            Action::TradeItems {
                player1,
                player1_item_index,
                player2,
                player2_item_index,
            } => ActionView::TradeItems {
                player1: player1@,
                player1_item_index,
                player2: player2@,
                player2_item_index,
            },
            Action::DistributeMtoshiRewards => ActionView::DistributeMtoshiRewards,
            Action::ShowLeaderboard => ActionView::ShowLeaderboard,
            Action::GetMtoshiBalance { player } => ActionView::GetMtoshiBalance { player: player@ },
            Action::MintNft { player, name, value } => ActionView::MintNft {
                player: player@,
                name: name@,
                value,
            },
            Action::BuyNft { buyer, seller, nft_index } => ActionView::BuyNft {
                buyer: buyer@,
                seller: seller@,
                nft_index,
            },
            Action::SellNft { seller, nft_index, price } => ActionView::SellNft {
                seller: seller@,
                nft_index,
                price,
            },
            Action::UploadContent { player, content_id, title } => ActionView::UploadContent {
                player: player@,
                content_id: content_id@,
                title: title@,
            },
            Action::LikeContent { player, content_id } => ActionView::LikeContent {
                player: player@,
                content_id: content_id@,
            },
            Action::CommentContent { player, content_id, comment } => ActionView::CommentContent {
                player: player@,
                content_id: content_id@,
                comment: comment@,
            },
            Action::ViewContent { player, content_id } => ActionView::ViewContent {
                player: player@,
                content_id: content_id@,
            },
            Action::PostContent { player, post_id, caption } => ActionView::PostContent {
                player: player@,
                post_id: post_id@,
                caption: caption@,
            },
            Action::LikePost { player, post_id, paid } => ActionView::LikePost {
                player: player@,
                post_id: post_id@,
                paid,
            },
            Action::CommentPost { player, post_id, comment } => ActionView::CommentPost {
                player: player@,
                post_id: post_id@,
                comment: comment@,
            },
            Action::BoostPost { player, post_id, tokens } => ActionView::BoostPost {
                player: player@,
                post_id: post_id@,
                tokens,
            },
            Action::GetPosts => ActionView::GetPosts,
            Action::GetVideos => ActionView::GetVideos,
            Action::GetNftListings => ActionView::GetNftListings,
        }
    }
}

/// One line of the leaderboard: id, level, experience, mining balance and
/// spendable balance.
pub type LeaderboardRow = (String, u32, u64, u64, u64);

/// One line of the list of posts: id, creator, caption, likes and boosts.
pub type PostRow = (String, String, String, u64, u64);

/// One line of the list of videos: id, creator, title and views.
pub type VideoRow = (String, String, String, u64);

/// One line of the list of items for sale: seller, position, name and
/// price.
pub type ListingRow = (String, u32, String, u64);

/// The view of a list of token balances written out as text.
pub open spec fn data_views(rows: Seq<(String, String)>) -> Seq<(Seq<char>, Seq<char>)> {
    Seq::new(rows.len(), |i: int| (rows[i].0@, rows[i].1@))
}

/// The view of a list of counters.
pub open spec fn stat_views(rows: Seq<(String, u64)>) -> Seq<(Seq<char>, u64)> {
    Seq::new(rows.len(), |i: int| (rows[i].0@, rows[i].1))
}

/// The view of a leaderboard.
pub open spec fn leaderboard_views(rows: Seq<LeaderboardRow>) -> Seq<
    (Seq<char>, u32, u64, u64, u64),
> {
    Seq::new(rows.len(), |i: int| (rows[i].0@, rows[i].1, rows[i].2, rows[i].3, rows[i].4))
}

/// The view of a list of posts.
pub open spec fn post_row_views(rows: Seq<PostRow>) -> Seq<
    (Seq<char>, Seq<char>, Seq<char>, u64, u64),
> {
    Seq::new(rows.len(), |i: int| (rows[i].0@, rows[i].1@, rows[i].2@, rows[i].3, rows[i].4))
}

/// The view of a list of videos.
pub open spec fn video_row_views(rows: Seq<VideoRow>) -> Seq<
    (Seq<char>, Seq<char>, Seq<char>, u64),
> {
    Seq::new(rows.len(), |i: int| (rows[i].0@, rows[i].1@, rows[i].2@, rows[i].3))
}

/// The view of a list of items for sale.
pub open spec fn listing_row_views(rows: Seq<ListingRow>) -> Seq<(Seq<char>, u32, Seq<char>, u64)> {
    Seq::new(rows.len(), |i: int| (rows[i].0@, rows[i].1, rows[i].2@, rows[i].3))
}

/// The answer to a request.
#[derive(Debug, Clone, PartialEq, Eq)]
pub enum ActionResult {
    TokensRequested { player: String, token: String, amount: u64 },
    Balance { player: String, token: String, balance: u64 },
    Player { player: String, data: Vec<(String, String)> },
    ContentStats { player: String, stats: Vec<(String, u64)> },
    Error { message: String },
    ActivitySimulated,
    BlockMined { miner: String, block: Option<Block> },
    ActivityRecorded { player: String, activity_type: u32, points: u64 },
    BattleResult { winner: String, loser: String },
    ItemsTraded { player1: String, player2: String, success: bool },
    MtoshiDistributed { total_reward: u64 },
    Leaderboard { players: Vec<LeaderboardRow> },
    MtoshiBalance { player: String, balance: u64 },
    NftMinted { player: String, name: String, value: u64 },
    NftBought { buyer: String, seller: String, nft_index: u32 },
    NftListed { seller: String, nft_index: u32, price: u64 },
    ContentUploaded { player: String, content_id: String },
    ContentLiked { player: String, content_id: String },
    ContentCommented { player: String, content_id: String },
    ContentViewed { player: String, content_id: String },
    ContentPosted { player: String, post_id: String },
    PostLiked { player: String, post_id: String, paid: bool },
    PostCommented { player: String, post_id: String },
    PostBoosted { player: String, post_id: String, tokens: u64 },
    Posts { posts: Vec<PostRow> },
    Videos { videos: Vec<VideoRow> },
    NftListings { listings: Vec<ListingRow> },
}

/// An answer as a mathematical value.
pub enum ActionResultView {
    TokensRequested { player: Seq<char>, token: Seq<char>, amount: u64 },
    Balance { player: Seq<char>, token: Seq<char>, balance: u64 },
    Player { player: Seq<char>, data: Seq<(Seq<char>, Seq<char>)> },
    ContentStats { player: Seq<char>, stats: Seq<(Seq<char>, u64)> },
    Error { message: Seq<char> },
    ActivitySimulated,
    BlockMined { miner: Seq<char>, block: Option<BlockView> },
    ActivityRecorded { player: Seq<char>, activity_type: u32, points: u64 },
    BattleResult { winner: Seq<char>, loser: Seq<char> },
    ItemsTraded { player1: Seq<char>, player2: Seq<char>, success: bool },
    MtoshiDistributed { total_reward: u64 },
    Leaderboard { players: Seq<(Seq<char>, u32, u64, u64, u64)> },
    MtoshiBalance { player: Seq<char>, balance: u64 },
    NftMinted { player: Seq<char>, name: Seq<char>, value: u64 },
    NftBought { buyer: Seq<char>, seller: Seq<char>, nft_index: u32 },
    NftListed { seller: Seq<char>, nft_index: u32, price: u64 },
    ContentUploaded { player: Seq<char>, content_id: Seq<char> },
    ContentLiked { player: Seq<char>, content_id: Seq<char> },
    ContentCommented { player: Seq<char>, content_id: Seq<char> },
    ContentViewed { player: Seq<char>, content_id: Seq<char> },
    ContentPosted { player: Seq<char>, post_id: Seq<char> },
    PostLiked { player: Seq<char>, post_id: Seq<char>, paid: bool },
    PostCommented { player: Seq<char>, post_id: Seq<char> },
    PostBoosted { player: Seq<char>, post_id: Seq<char>, tokens: u64 },
    Posts { posts: Seq<(Seq<char>, Seq<char>, Seq<char>, u64, u64)> },
    Videos { videos: Seq<(Seq<char>, Seq<char>, Seq<char>, u64)> },
    NftListings { listings: Seq<(Seq<char>, u32, Seq<char>, u64)> },
}

impl View for ActionResult {
    type V = ActionResultView;

    open spec fn view(&self) -> ActionResultView {
        match *self {
            ActionResult::TokensRequested { player, token, amount } => {
                ActionResultView::TokensRequested { player: player@, token: token@, amount }
            },
            ActionResult::Balance { player, token, balance } => ActionResultView::Balance {
                player: player@,
                token: token@,
                balance,
            },
            ActionResult::Player { player, data } => ActionResultView::Player {
                player: player@,
                data: data_views(data@),
            },
            ActionResult::ContentStats { player, stats } => ActionResultView::ContentStats {
                player: player@,
                stats: stat_views(stats@),
            },
            ActionResult::Error { message } => ActionResultView::Error { message: message@ },
            ActionResult::ActivitySimulated => ActionResultView::ActivitySimulated,
            ActionResult::BlockMined { miner, block } => ActionResultView::BlockMined {
                miner: miner@,
                block: block_view(block),
            },
            ActionResult::ActivityRecorded { player, activity_type, points } => {
                ActionResultView::ActivityRecorded { player: player@, activity_type, points }
            },
            ActionResult::BattleResult { winner, loser } => ActionResultView::BattleResult {
                winner: winner@,
                loser: loser@,
            },
            ActionResult::ItemsTraded { player1, player2, success } => {
                ActionResultView::ItemsTraded { player1: player1@, player2: player2@, success }
            },
            ActionResult::MtoshiDistributed { total_reward } => {
                ActionResultView::MtoshiDistributed { total_reward }
            },
            ActionResult::Leaderboard { players } => ActionResultView::Leaderboard {
                players: leaderboard_views(players@),
            },
            ActionResult::MtoshiBalance { player, balance } => ActionResultView::MtoshiBalance {
                player: player@,
                balance,
            },
            ActionResult::NftMinted { player, name, value } => ActionResultView::NftMinted {
                player: player@,
                name: name@,
                value,
            },
            ActionResult::NftBought { buyer, seller, nft_index } => ActionResultView::NftBought {
                buyer: buyer@,
                seller: seller@,
                nft_index,
            },
            ActionResult::NftListed { seller, nft_index, price } => ActionResultView::NftListed {
                seller: seller@,
                nft_index,
                price,
            },
            ActionResult::ContentUploaded { player, content_id } => {
                ActionResultView::ContentUploaded { player: player@, content_id: content_id@ }
            },
            ActionResult::ContentLiked { player, content_id } => ActionResultView::ContentLiked {
                player: player@,
                content_id: content_id@,
            },
            ActionResult::ContentCommented { player, content_id } => {
                ActionResultView::ContentCommented { player: player@, content_id: content_id@ }
            },
            ActionResult::ContentViewed { player, content_id } => ActionResultView::ContentViewed {
                player: player@,
                content_id: content_id@,
            },
            ActionResult::ContentPosted { player, post_id } => ActionResultView::ContentPosted {
                player: player@,
                post_id: post_id@,
            },
            ActionResult::PostLiked { player, post_id, paid } => ActionResultView::PostLiked {
                player: player@,
                post_id: post_id@,
                paid,
            },
            ActionResult::PostCommented { player, post_id } => ActionResultView::PostCommented {
                player: player@,
                post_id: post_id@,
            },
            ActionResult::PostBoosted { player, post_id, tokens } => ActionResultView::PostBoosted {
                player: player@,
                post_id: post_id@,
                tokens,
            },
            ActionResult::Posts { posts } => ActionResultView::Posts {
                posts: post_row_views(posts@),
            },
            ActionResult::Videos { videos } => ActionResultView::Videos {
                videos: video_row_views(videos@),
            },
            ActionResult::NftListings { listings } => ActionResultView::NftListings {
                listings: listing_row_views(listings@),
            },
        }
    }
}

impl ActionResult {
    /// The rejection that this answer reports, if it reports one.
    pub fn error_kind(&self) -> (kind: Option<ActionError>)
        ensures
            match kind {
                Some(error) => self@ == (ActionResultView::Error { message: error.text() }),
                None => forall|error: ActionError|
                    self@ != (ActionResultView::Error { message: error.text() }),
            },
    {
        match self {
            ActionResult::Error { message } => ActionError::from_message(message.as_str()),
            _ => None,
        }
    }

    /// The answer that reports a rejection.
    pub fn rejected(error: ActionError) -> (result: ActionResult)
        ensures
            result@ == (ActionResultView::Error { message: error.text() }),
    {
        ActionResult::Error { message: error.message() }
    }
}

} // verus!
