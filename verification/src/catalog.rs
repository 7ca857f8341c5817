//! Static card catalog: each character's action, effect and counteraction.
//!
//! The catalog is pure lookup; it holds no state. Every character has
//! exactly one card template, and every action is tied to at most one
//! character whose card grants it.

use vstd::prelude::*;

verus! {

/// One of the five dealt character kinds.
#[derive(Clone, Copy, Debug, PartialEq, Eq, Structural)]
pub enum Character {
    Duke,
    Assassin,
    Ambassador,
    Captain,
    Contessa,
}

/// An action a player may propose on their turn.
#[derive(Clone, Copy, Debug, PartialEq, Eq, Structural)]
pub enum Action {
    Income,
    ForeignAid,
    Coup,
    Tax,
    Assassinate,
    Exchange,
    Steal,
}

/// The mechanical consequence of a resolved action.
#[derive(Clone, Copy, Debug, PartialEq, Eq, Structural)]
pub enum Effect {
    /// Take this many coins from the bank.
    Take(u32),
    /// Target loses one influence card; costs this many coins to initiate.
    Kill(u32),
    /// Draw two cards from the deck, then return two.
    ExchangeCards,
    /// Take this many coins from a specific target player.
    TakeFromPlayer(u32),
}

/// A character-granted capability to block one action category.
#[derive(Clone, Copy, Debug, PartialEq, Eq, Structural)]
pub enum Counteraction {
    NoBlock,
    BlocksForeignAid,
    BlocksStealing,
    BlocksAssassination,
}

/// An immutable card template: a character together with the action,
/// effect and counteraction its card grants. Cards of the same character
/// are interchangeable.
#[derive(Clone, Copy, Debug, PartialEq, Eq, Structural)]
pub struct Card {
    pub character: Character,
    pub action: Option<Action>,
    pub effect: Option<Effect>,
    pub counteraction: Counteraction,
}

impl Character {
    /// The dense index of this character, used to key per-character counts.
    pub open spec fn index_spec(self) -> int {
        match self {
            Character::Duke => 0,
            Character::Assassin => 1,
            Character::Ambassador => 2,
            Character::Captain => 3,
            Character::Contessa => 4,
        }
    }

    /// Dense index of this character, in `0 .. 5`.
    pub fn index(self) -> (i: usize)
        ensures
            i == self.index_spec(),
            i < 5,
    {
        match self {
            Character::Duke => 0,
            Character::Assassin => 1,
            Character::Ambassador => 2,
            Character::Captain => 3,
            Character::Contessa => 4,
        }
    }

    /// The character with the given dense index.
    pub fn from_index(i: usize) -> (c: Character)
        requires
            i < 5,
        ensures
            c.index_spec() == i,
    {
        if i == 0 {
            Character::Duke
        } else if i == 1 {
            Character::Assassin
        } else if i == 2 {
            Character::Ambassador
        } else if i == 3 {
            Character::Captain
        } else {
            Character::Contessa
        }
    }

    /// Display name of this character.
    pub fn name(self) -> (r: &'static str)
        ensures
            r@ == self.name_spec(),
    {
        match self {
            Character::Duke => "Duke",
            Character::Assassin => "Assassin",
            Character::Ambassador => "Ambassador",
            Character::Captain => "Captain",
            Character::Contessa => "Contessa",
        }
    }

    /// Display name of this character, as a sequence of characters.
    pub open spec fn name_spec(self) -> Seq<char> {
        match self {
            Character::Duke => "Duke"@,
            Character::Assassin => "Assassin"@,
            Character::Ambassador => "Ambassador"@,
            Character::Captain => "Captain"@,
            Character::Contessa => "Contessa"@,
        }
    }
}

/// The card template for a character (spec-level mirror of `template_for`).
pub open spec fn template_spec(c: Character) -> Card {
    match c {
        Character::Duke => Card {
            character: Character::Duke,
            action: Some(Action::Tax),
            effect: Some(Effect::Take(3)),
            counteraction: Counteraction::BlocksForeignAid,
        },
        Character::Assassin => Card {
            character: Character::Assassin,
            action: Some(Action::Assassinate),
            effect: Some(Effect::Kill(3)),
            counteraction: Counteraction::NoBlock,
        },
        Character::Ambassador => Card {
            character: Character::Ambassador,
            action: Some(Action::Exchange),
            effect: Some(Effect::ExchangeCards),
            counteraction: Counteraction::BlocksStealing,
        },
        Character::Captain => Card {
            character: Character::Captain,
            action: Some(Action::Steal),
            effect: Some(Effect::TakeFromPlayer(2)),
            counteraction: Counteraction::BlocksStealing,
        },
        Character::Contessa => Card {
            character: Character::Contessa,
            action: None,
            effect: None,
            counteraction: Counteraction::BlocksAssassination,
        },
    }
}

/// The unique card template for a character.
pub fn template_for(c: Character) -> (card: Card)
    ensures
        card == template_spec(c),
        card.character == c,
{
    match c {
        Character::Duke => Card {
            character: Character::Duke,
            action: Some(Action::Tax),
            effect: Some(Effect::Take(3)),
            counteraction: Counteraction::BlocksForeignAid,
        },
        Character::Assassin => Card {
            character: Character::Assassin,
            action: Some(Action::Assassinate),
            effect: Some(Effect::Kill(3)),
            counteraction: Counteraction::NoBlock,
        },
        Character::Ambassador => Card {
            character: Character::Ambassador,
            action: Some(Action::Exchange),
            effect: Some(Effect::ExchangeCards),
            counteraction: Counteraction::BlocksStealing,
        },
        Character::Captain => Card {
            character: Character::Captain,
            action: Some(Action::Steal),
            effect: Some(Effect::TakeFromPlayer(2)),
            counteraction: Counteraction::BlocksStealing,
        },
        Character::Contessa => Card {
            character: Character::Contessa,
            action: None,
            effect: None,
            counteraction: Counteraction::BlocksAssassination,
        },
    }
}

/// The character an action claims (spec-level mirror of `requires_character`).
pub open spec fn requires_character_spec(a: Action) -> Option<Character> {
    match a {
        Action::Income => None,
        Action::ForeignAid => None,
        Action::Coup => None,
        Action::Tax => Some(Character::Duke),
        Action::Assassinate => Some(Character::Assassin),
        Action::Exchange => Some(Character::Ambassador),
        Action::Steal => Some(Character::Captain),
    }
}

/// The character whose card an action claims, or `None` for the generic
/// actions available to everyone.
pub fn requires_character(a: Action) -> (c: Option<Character>)
    ensures
        c == requires_character_spec(a),
{
    match a {
        Action::Income => None,
        Action::ForeignAid => None,
        Action::Coup => None,
        Action::Tax => Some(Character::Duke),
        Action::Assassinate => Some(Character::Assassin),
        Action::Exchange => Some(Character::Ambassador),
        Action::Steal => Some(Character::Captain),
    }
}

/// The counteraction category that can block an action (spec-level mirror).
pub open spec fn counteraction_for_spec(a: Action) -> Counteraction {
    match a {
        Action::ForeignAid => Counteraction::BlocksForeignAid,
        Action::Steal => Counteraction::BlocksStealing,
        Action::Assassinate => Counteraction::BlocksAssassination,
        _ => Counteraction::NoBlock,
    }
}

/// The counteraction category that can block an action; `NoBlock` for
/// actions that cannot be blocked.
pub fn counteraction_for(a: Action) -> (r: Counteraction)
    ensures
        r == counteraction_for_spec(a),
{
    match a {
        Action::ForeignAid => Counteraction::BlocksForeignAid,
        Action::Steal => Counteraction::BlocksStealing,
        Action::Assassinate => Counteraction::BlocksAssassination,
        Action::Income => Counteraction::NoBlock,
        Action::Coup => Counteraction::NoBlock,
        Action::Tax => Counteraction::NoBlock,
        Action::Exchange => Counteraction::NoBlock,
    }
}

/// Whether a character's card grants the given counteraction
/// (spec-level mirror of `grants_counteraction`).
pub open spec fn grants_counteraction_spec(c: Character, ca: Counteraction) -> bool {
    template_spec(c).counteraction == ca
}

/// Whether a character's card grants the given counteraction.
pub fn grants_counteraction(c: Character, ca: Counteraction) -> (r: bool)
    ensures
        r == grants_counteraction_spec(c, ca),
{
    let t = template_for(c);
    t.counteraction == ca
}

/// The effect of an action (spec-level mirror of `effect_of`).
pub open spec fn effect_of_spec(a: Action) -> Effect {
    match a {
        Action::Income => Effect::Take(1),
        Action::ForeignAid => Effect::Take(2),
        Action::Coup => Effect::Kill(7),
        Action::Tax => Effect::Take(3),
        Action::Assassinate => Effect::Kill(3),
        Action::Exchange => Effect::ExchangeCards,
        Action::Steal => Effect::TakeFromPlayer(2),
    }
}

/// The effect an action applies when it resolves.
pub fn effect_of(a: Action) -> (e: Effect)
    ensures
        e == effect_of_spec(a),
{
    match a {
        Action::Income => Effect::Take(1),
        Action::ForeignAid => Effect::Take(2),
        Action::Coup => Effect::Kill(7),
        Action::Tax => Effect::Take(3),
        Action::Assassinate => Effect::Kill(3),
        Action::Exchange => Effect::ExchangeCards,
        Action::Steal => Effect::TakeFromPlayer(2),
    }
}

} // verus!
