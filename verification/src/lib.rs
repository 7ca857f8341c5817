//! Rules engine for a social-deduction card game in the style of Coup.
//!
//! Players hold secret character cards, take coin-generating or aggressive
//! actions, and may bluff, counteract, or challenge each other's claims.
//! The engine enforces the card-conservation invariant (cards in the deck,
//! the discard pile and all hands always sum to the total minted at the
//! start) and drives one proposed action from proposal through the
//! counteraction and challenge windows to its final effect.

#![verifier::loop_isolation(false)]

use vstd::prelude::*;

pub mod catalog;
pub mod counting;
pub mod deck;
pub mod engine;
pub mod error;
pub mod player;

pub use counting::count_of_char;
pub use deck::Deck;
pub use deck::DrawSource;
pub use engine::AfterLoss;
pub use engine::Game;
pub use engine::OpponentView;
pub use engine::Phase;
pub use engine::Play;
pub use engine::PlayerView;
pub use engine::SessionSummary;
pub use engine::Turn;
pub use engine::TurnOutcome;
pub use engine::TurnStep;
pub use error::ActionError;
pub use player::Player;

pub use catalog::Action;
pub use catalog::Card;
pub use catalog::Character;
pub use catalog::Counteraction;
pub use catalog::Effect;

