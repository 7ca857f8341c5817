//! Errors of the engine. Validation errors fail before any mutation;
//! resource errors signal a violated engine invariant.

use vstd::prelude::*;

verus! {

/// Everything a call into the engine can fail with.
///
/// Game outcomes (a voided bluff, a blocked action, a lost challenge) are
/// never errors: they are ordinary turn results.
#[derive(Clone, Copy, Debug, PartialEq, Eq, Structural)]
pub enum ActionError {
    /// The acting player cannot pay the action's cost.
    InsufficientFunds,
    /// A target was required and absent, absent and present, the actor
    /// itself, out of range, or eliminated.
    InvalidTarget,
    /// The acting player has no influence left.
    ActorEliminated,
    /// The proposing player is not the player whose turn it is.
    NotYourTurn,
    /// The engine was asked to step a window that is not open.
    WrongPhase,
    /// The responding player may not act in the open window.
    NotEligible,
    /// The claimed character does not grant the needed counteraction.
    InvalidClaim,
    /// A player was asked to give up a card they do not hold.
    CardNotHeld,
    /// Deck and discard pile are both empty at draw time: a violated
    /// conservation invariant, fatal to the session.
    DeckExhausted,
}

impl ActionError {
    /// A short description, for the embedding layer to show.
    pub fn describe(self) -> &'static str {
        match self {
            ActionError::InsufficientFunds => "insufficient funds",
            ActionError::InvalidTarget => "invalid target",
            ActionError::ActorEliminated => "acting player is eliminated",
            ActionError::NotYourTurn => "not this player's turn",
            ActionError::WrongPhase => "no such response window is open",
            ActionError::NotEligible => "player may not respond to this window",
            ActionError::InvalidClaim => "claimed character grants no such block",
            ActionError::CardNotHeld => "card not held",
            ActionError::DeckExhausted => "deck and discard pile are empty",
        }
    }
}

} // verus!
