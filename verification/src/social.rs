//! Content and post records: who made them, who liked them, and what was
//! said about them.

use crate::economy::sat_add;
use vstd::prelude::*;

verus! {

/// The character sequences of a list of texts, in order.
pub open spec fn text_views(list: Seq<String>) -> Seq<Seq<char>> {
    Seq::new(list.len(), |i: int| list[i]@)
}

/// Appending one text to a list appends its characters to the views.
pub proof fn lemma_text_views_push(list: Seq<String>, text: String)
    ensures
        text_views(list.push(text)) == text_views(list).push(text@),
{
    assert(text_views(list.push(text)) =~= text_views(list).push(text@));
}

/// Whether `text` occurs in `list`.
pub fn contains_text(list: &Vec<String>, text: &str) -> (found: bool)
    ensures
        found == text_views(list@).contains(text@),
{
    let mut i: usize = 0;
    while i < list.len()
        invariant
            i <= list@.len(),
            forall|j: int| 0 <= j < i ==> list@[j]@ != text@,
        decreases list@.len() - i,
    {
        if list[i].as_str().eq(text) {
            assert(text_views(list@)[i as int] == text@);
            return true;
        }
        i += 1;
    }
    false
}

/// Whether no text occurs twice in `list`.
pub fn all_distinct(list: &Vec<String>) -> (ok: bool)
    ensures
        ok == text_views(list@).no_duplicates(),
{
    let mut i: usize = 0;
    while i < list.len()
        invariant
            i <= list@.len(),
            forall|a: int, b: int| 0 <= a < b < i ==> list@[a]@ != list@[b]@,
        decreases list@.len() - i,
    {
        let mut j: usize = 0;
        while j < i
            invariant
                j <= i < list@.len(),
                forall|a: int| 0 <= a < j ==> list@[a]@ != list@[i as int]@,
            decreases i - j,
        {
            if list[j].as_str().eq(list[i].as_str()) {
                proof {
                    let views = text_views(list@);
                    assert(views[j as int] == views[i as int]);
                }
                return false;
            }
            j += 1;
        }
        i += 1;
    }
    proof {
        let views = text_views(list@);
        assert forall|a: int, b: int|
            0 <= a < views.len() && 0 <= b < views.len() && a != b implies views[a] != views[b] by {
            if a < b {
                assert(list@[a]@ != list@[b]@);
            } else {
                assert(list@[b]@ != list@[a]@);
            }
        }
    }
    true
}

/// An uploaded piece of content.
#[derive(Debug, Clone, PartialEq, Eq)]
pub struct ContentRecord {
    pub creator: String,
    pub title: String,
    pub views: u64,
    pub likes: Vec<String>,
    pub comments: Vec<String>,
}

/// A piece of content as a mathematical value.
pub struct ContentView {
    pub creator: Seq<char>,
    pub title: Seq<char>,
    pub views: u64,
    pub likes: Seq<Seq<char>>,
    pub comments: Seq<Seq<char>>,
}

impl View for ContentRecord {
    type V = ContentView;

    open spec fn view(&self) -> ContentView {
        ContentView {
            creator: self.creator@,
            title: self.title@,
            views: self.views,
            likes: text_views(self.likes@),
            comments: text_views(self.comments@),
        }
    }
}

impl ContentView {
    /// Content as uploaded: not yet viewed, liked or commented.
    pub open spec fn fresh(creator: Seq<char>, title: Seq<char>) -> ContentView {
        ContentView { creator, title, views: 0, likes: Seq::empty(), comments: Seq::empty() }
    }

    /// Nobody is recorded twice among the likers.
    pub open spec fn wf(self) -> bool {
        self.likes.no_duplicates()
    }

    /// The content with one more like, by `player`.
    pub open spec fn with_like(self, player: Seq<char>) -> ContentView {
        ContentView { likes: self.likes.push(player), ..self }
    }

    /// The content with one more comment.
    pub open spec fn with_comment(self, comment: Seq<char>) -> ContentView {
        ContentView { comments: self.comments.push(comment), ..self }
    }

    /// The content with one more view.
    pub open spec fn viewed(self) -> ContentView {
        ContentView { views: sat_add(self.views, 1), ..self }
    }
}

impl ContentRecord {
    /// Makes the record of content as uploaded.
    pub fn new(creator: String, title: String) -> (record: ContentRecord)
        ensures
            record@ == ContentView::fresh(creator@, title@),
            record@.wf(),
    {
        let record = ContentRecord {
            creator,
            title,
            views: 0,
            likes: Vec::new(),
            comments: Vec::new(),
        };
        assert(record@.likes =~= Seq::<Seq<char>>::empty());
        assert(record@.comments =~= Seq::<Seq<char>>::empty());
        record
    }

    /// Records a like by a player who has not liked this content before.
    pub fn add_like(&mut self, player: String)
        requires
            old(self)@.wf(),
            !old(self)@.likes.contains(player@),
        ensures
            final(self)@ == old(self)@.with_like(player@),
            final(self)@.wf(),
    {
        proof {
            lemma_text_views_push(self.likes@, player);
            lemma_push_keeps_distinct(self@.likes, player@);
        }
        self.likes.push(player);
    }

    /// Records a comment.
    pub fn add_comment(&mut self, comment: String)
        requires
            old(self)@.wf(),
        ensures
            final(self)@ == old(self)@.with_comment(comment@),
            final(self)@.wf(),
    {
        proof {
            lemma_text_views_push(self.comments@, comment);
        }
        self.comments.push(comment);
    }

    /// Records a view.
    pub fn add_view(&mut self)
        requires
            old(self)@.wf(),
        ensures
            final(self)@ == old(self)@.viewed(),
            final(self)@.wf(),
    {
        self.views = self.views.saturating_add(1);
    }
}

/// A list without repetitions stays one when something new is appended.
pub proof fn lemma_push_keeps_distinct(list: Seq<Seq<char>>, text: Seq<char>)
    requires
        list.no_duplicates(),
        !list.contains(text),
    ensures
        list.push(text).no_duplicates(),
{
    let longer = list.push(text);
    assert forall|i: int, j: int|
        0 <= i < longer.len() && 0 <= j < longer.len() && i != j implies longer[i] != longer[j] by {
        if i < list.len() {
            assert(list.contains(list[i]));
        }
        if j < list.len() {
            assert(list.contains(list[j]));
        }
    }
}

/// A published post.
#[derive(Debug, Clone, PartialEq, Eq)]
pub struct PostRecord {
    pub creator: String,
    pub caption: String,
    pub likes: Vec<String>,
    pub comments: Vec<String>,
    pub boosts: u64,
    pub reputation_points: u64,
}

/// A post as a mathematical value.
pub struct PostView {
    pub creator: Seq<char>,
    pub caption: Seq<char>,
    pub likes: Seq<Seq<char>>,
    pub comments: Seq<Seq<char>>,
    pub boosts: u64,
    pub reputation_points: u64,
}

impl View for PostRecord {
    type V = PostView;

    open spec fn view(&self) -> PostView {
        PostView {
            creator: self.creator@,
            caption: self.caption@,
            likes: text_views(self.likes@),
            comments: text_views(self.comments@),
            boosts: self.boosts,
            reputation_points: self.reputation_points,
        }
    }
}

impl PostView {
    /// A post as published: not yet liked, commented or boosted.
    pub open spec fn fresh(creator: Seq<char>, caption: Seq<char>) -> PostView {
        PostView {
            creator,
            caption,
            likes: Seq::empty(),
            comments: Seq::empty(),
            boosts: 0,
            reputation_points: 0,
        }
    }

    /// Nobody is recorded twice among the likers.
    pub open spec fn wf(self) -> bool {
        self.likes.no_duplicates()
    }

    /// The post with one more like, by `player`, and one more reputation
    /// point.
    pub open spec fn with_like(self, player: Seq<char>) -> PostView {
        PostView {
            likes: self.likes.push(player),
            reputation_points: sat_add(self.reputation_points, 1),
            ..self
        }
    }

    /// The post with one more comment and one more reputation point.
    pub open spec fn with_comment(self, comment: Seq<char>) -> PostView {
        PostView {
            comments: self.comments.push(comment),
            reputation_points: sat_add(self.reputation_points, 1),
            ..self
        }
    }

    /// The post boosted by `tokens`: that many more boosts and reputation
    /// points.
    pub open spec fn boosted(self, tokens: u64) -> PostView {
        PostView {
            boosts: sat_add(self.boosts, tokens),
            reputation_points: sat_add(self.reputation_points, tokens),
            ..self
        }
    }
}

impl PostRecord {
    /// Makes the record of a post as published.
    pub fn new(creator: String, caption: String) -> (record: PostRecord)
        ensures
            record@ == PostView::fresh(creator@, caption@),
            record@.wf(),
    {
        let record = PostRecord {
            creator,
            caption,
            likes: Vec::new(),
            comments: Vec::new(),
            boosts: 0,
            reputation_points: 0,
        };
        assert(record@.likes =~= Seq::<Seq<char>>::empty());
        assert(record@.comments =~= Seq::<Seq<char>>::empty());
        record
    }

    /// Records a like by a player who has not liked this post before.
    pub fn add_like(&mut self, player: String)
        requires
            old(self)@.wf(),
            !old(self)@.likes.contains(player@),
        ensures
            final(self)@ == old(self)@.with_like(player@),
            final(self)@.wf(),
    {
        proof {
            lemma_text_views_push(self.likes@, player);
            lemma_push_keeps_distinct(self@.likes, player@);
        }
        self.likes.push(player);
        self.reputation_points = self.reputation_points.saturating_add(1);
    }

    /// Records a comment.
    pub fn add_comment(&mut self, comment: String)
        requires
            old(self)@.wf(),
        ensures
            final(self)@ == old(self)@.with_comment(comment@),
            final(self)@.wf(),
    {
        proof {
            lemma_text_views_push(self.comments@, comment);
        }
        self.comments.push(comment);
        self.reputation_points = self.reputation_points.saturating_add(1);
    }

    /// Records a boost of `tokens`.
    pub fn add_boost(&mut self, tokens: u64)
        requires
            old(self)@.wf(),
        ensures
            final(self)@ == old(self)@.boosted(tokens),
            final(self)@.wf(),
    {
        self.boosts = self.boosts.saturating_add(tokens);
        self.reputation_points = self.reputation_points.saturating_add(tokens);
    }
}

} // verus!
