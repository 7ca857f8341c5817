//! Tests of the static card catalog.

use coup_engine::catalog::template_for;
use coup_engine::catalog::counteraction_for;
use coup_engine::catalog::effect_of;
use coup_engine::catalog::requires_character;
use coup_engine::catalog::Action;
use coup_engine::catalog::Character;
use coup_engine::catalog::Counteraction;
use coup_engine::catalog::Effect;

#[test]
fn duke_template() {
    let card = template_for(Character::Duke);
    assert_eq!(card.character, Character::Duke);
    assert_eq!(card.action, Some(Action::Tax));
    assert_eq!(card.effect, Some(Effect::Take(3)));
    assert_eq!(card.counteraction, Counteraction::BlocksForeignAid);
}

#[test]
fn assassin_template() {
    let card = template_for(Character::Assassin);
    assert_eq!(card.action, Some(Action::Assassinate));
    assert_eq!(card.effect, Some(Effect::Kill(3)));
    assert_eq!(card.counteraction, Counteraction::NoBlock);
}

#[test]
fn contessa_template_grants_only_the_block() {
    let card = template_for(Character::Contessa);
    assert_eq!(card.action, None);
    assert_eq!(card.effect, None);
    assert_eq!(card.counteraction, Counteraction::BlocksAssassination);
}

#[test]
fn captain_and_ambassador_both_block_stealing() {
    assert_eq!(
        template_for(Character::Captain).counteraction,
        Counteraction::BlocksStealing
    );
    assert_eq!(
        template_for(Character::Ambassador).counteraction,
        Counteraction::BlocksStealing
    );
}

#[test]
fn actions_claim_their_characters() {
    assert_eq!(requires_character(Action::Income), None);
    assert_eq!(requires_character(Action::ForeignAid), None);
    assert_eq!(requires_character(Action::Coup), None);
    assert_eq!(requires_character(Action::Tax), Some(Character::Duke));
    assert_eq!(requires_character(Action::Assassinate), Some(Character::Assassin));
    assert_eq!(requires_character(Action::Exchange), Some(Character::Ambassador));
    assert_eq!(requires_character(Action::Steal), Some(Character::Captain));
}

#[test]
fn blockable_actions() {
    assert_eq!(counteraction_for(Action::ForeignAid), Counteraction::BlocksForeignAid);
    assert_eq!(counteraction_for(Action::Steal), Counteraction::BlocksStealing);
    assert_eq!(counteraction_for(Action::Assassinate), Counteraction::BlocksAssassination);
    assert_eq!(counteraction_for(Action::Income), Counteraction::NoBlock);
    assert_eq!(counteraction_for(Action::Coup), Counteraction::NoBlock);
    assert_eq!(counteraction_for(Action::Tax), Counteraction::NoBlock);
    assert_eq!(counteraction_for(Action::Exchange), Counteraction::NoBlock);
}

#[test]
fn effects_of_actions() {
    assert_eq!(effect_of(Action::Income), Effect::Take(1));
    assert_eq!(effect_of(Action::ForeignAid), Effect::Take(2));
    assert_eq!(effect_of(Action::Coup), Effect::Kill(7));
    assert_eq!(effect_of(Action::Tax), Effect::Take(3));
    assert_eq!(effect_of(Action::Assassinate), Effect::Kill(3));
    assert_eq!(effect_of(Action::Exchange), Effect::ExchangeCards);
    assert_eq!(effect_of(Action::Steal), Effect::TakeFromPlayer(2));
}

#[test]
fn character_names() {
    assert_eq!(Character::Duke.name(), "Duke");
    assert_eq!(Character::Assassin.name(), "Assassin");
    assert_eq!(Character::Ambassador.name(), "Ambassador");
    assert_eq!(Character::Captain.name(), "Captain");
    assert_eq!(Character::Contessa.name(), "Contessa");
}

#[test]
fn character_indices_round_trip() {
    for c in [
        Character::Duke,
        Character::Assassin,
        Character::Ambassador,
        Character::Captain,
        Character::Contessa,
    ] {
        assert_eq!(Character::from_index(c.index()), c);
    }
}
