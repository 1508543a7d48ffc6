//! The outcomes of chance that one action may consume, gathered so that an
//! action can be replayed with the same outcomes.

use vstd::prelude::*;

verus! {

/// What chance decided for one action. An action reads only what it needs:
/// mining the nonce, the computed hash, the timestamp and one flip per
/// contributor; a battle the two rolls and the first flip; an activity the
/// first flip; a trade the first two flips; a simulation one pick per
/// player.
#[derive(Debug, Clone, PartialEq, Eq)]
pub struct Draws {
    pub nonce: u64,
    pub computed_hash: u64,
    pub timestamp: u64,
    pub roll1: u32,
    pub roll2: u32,
    pub flips: Vec<bool>,
    pub picks: Vec<(u32, bool)>,
}

/// The draws as a mathematical value.
pub struct DrawsView {
    pub nonce: u64,
    pub computed_hash: u64,
    pub timestamp: u64,
    pub roll1: u32,
    pub roll2: u32,
    pub flips: Seq<bool>,
    pub picks: Seq<(u32, bool)>,
}

impl View for Draws {
    type V = DrawsView;

    open spec fn view(&self) -> DrawsView {
        DrawsView {
            nonce: self.nonce,
            computed_hash: self.computed_hash,
            timestamp: self.timestamp,
            roll1: self.roll1,
            roll2: self.roll2,
            flips: self.flips@,
            picks: self.picks@,
        }
    }
}

impl DrawsView {
    /// Draws in which chance decided nothing.
    pub open spec fn none() -> DrawsView {
        DrawsView {
            nonce: 0,
            computed_hash: 0,
            timestamp: 0,
            roll1: 0,
            roll2: 0,
            flips: Seq::empty(),
            picks: Seq::empty(),
        }
    }

    /// The draws lie in the ranges that the dice have: each roll is below
    /// ten, each pick below four.
    pub open spec fn fair(self) -> bool {
        &&& self.roll1 < 10
        &&& self.roll2 < 10
        &&& forall|i: int| 0 <= i < self.picks.len() ==> (#[trigger] self.picks[i]).0 < 4
    }
}

impl Draws {
    /// Makes draws in which chance decided nothing.
    pub fn none() -> (draws: Draws)
        ensures
            draws@ == DrawsView::none(),
            draws@.fair(),
    {
        Draws {
            nonce: 0,
            computed_hash: 0,
            timestamp: 0,
            roll1: 0,
            roll2: 0,
            flips: Vec::new(),
            picks: Vec::new(),
        }
    }
}

} // verus!
