//! A deterministic economic ledger for a small game economy: player
//! balances and inventories, a content and post graph with capped creator
//! rewards, an item marketplace, and the action processor that drives them.
//!
//! Every type has a view, its value as mathematics, and every function
//! states over the views what it returns and changes. The rule of each
//! action is a function from the ledger's view to the next one
//! ([`ledger::LedgerView::step`]); the processor
//! ([`blockchain::Blockchain::process_action_with`]) is proved to follow it.
//!
//! * Amounts are unsigned fixed-point values ([`economy`]). A sum that would
//!   pass the largest representable amount is held at it; a payment that a
//!   balance does not cover is rejected before anything changes.
//! * Tables are keyed by text and keep the order in which their keys were
//!   first seen ([`table`]).
//! * Whatever chance decides is drawn from a seedable generator that the
//!   runtime holds, and can be handed in instead ([`draws`]): each gameplay
//!   function that draws has a twin that takes the draws as arguments.
//! * A value is well formed when its invariants hold. Every function keeps
//!   a well-formed value well formed, and `is_well_formed` checks it.

pub mod action;
pub mod blockchain;
pub mod chance;
pub mod clock;
pub mod draws;
pub mod economy;
pub mod ledger;
pub mod player;
pub mod runtime;
pub mod social;
pub mod table;
pub mod text;
pub mod tokens;
