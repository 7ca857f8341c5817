//! Tests of the deck: weighted draw, scripted determinism, reshuffle and
//! exhaustion.

use coup_engine::catalog::Character;
use coup_engine::deck::Deck;
use coup_engine::deck::DrawSource;
use coup_engine::error::ActionError;

fn counted_deck(counts: [usize; 5], source: DrawSource) -> Deck {
    let composition: Vec<usize> = vec![counts[0], counts[1], counts[2], counts[3], counts[4]];
    Deck::new(&composition, source)
}

#[test]
fn weighted_draw_matches_counts() {
    // Three Dukes and one Assassin: drawing everything without
    // replacement must yield exactly three Dukes and one Assassin —
    // the draw is weighted by physical cards, not uniform over kinds.
    let source = DrawSource::scripted(vec![0, 1, 2, 3]);
    let mut deck = counted_deck([3, 1, 0, 0, 0], source);
    let mut dukes = 0;
    let mut assassins = 0;
    for _ in 0..4 {
        match deck.draw_random() {
            Ok(Character::Duke) => dukes += 1,
            Ok(Character::Assassin) => assassins += 1,
            other => panic!("unexpected draw: {:?}", other),
        }
    }
    // Empirical frequency of the three-card character is 3/4, not 1/2.
    assert_eq!(dukes, 3);
    assert_eq!(assassins, 1);
}

#[test]
fn random_draw_is_weighted_without_replacement() {
    // Same deck with the real random generator: whatever the order, the
    // multiset of drawn cards is exactly the deck's contents.
    let mut deck = counted_deck([3, 1, 0, 0, 0], DrawSource::random());
    let mut dukes = 0;
    let mut assassins = 0;
    for _ in 0..4 {
        match deck.draw_random() {
            Ok(Character::Duke) => dukes += 1,
            Ok(Character::Assassin) => assassins += 1,
            other => panic!("unexpected draw: {:?}", other),
        }
    }
    assert_eq!(dukes, 3);
    assert_eq!(assassins, 1);
    assert_eq!(deck.total_count(), 0);
}

#[test]
fn scripted_draw_is_deterministic() {
    // Script index 12 on the standard deck: blocks are Duke 0-2,
    // Assassin 3-5, Ambassador 6-8, Captain 9-11, Contessa 12-14.
    let mut deck = Deck::standard(DrawSource::scripted(vec![12, 0, 3]));
    assert_eq!(deck.draw_random(), Ok(Character::Contessa));
    assert_eq!(deck.draw_random(), Ok(Character::Duke));
    // After those draws the blocks shifted: Duke now 0-1, Assassin 2-4.
    assert_eq!(deck.draw_random(), Ok(Character::Assassin));
}

#[test]
fn scripted_values_reduce_modulo_the_deck_size() {
    // Seventeen reduces to two over the fifteen remaining cards: a Duke.
    let mut deck = Deck::standard(DrawSource::scripted(vec![17]));
    assert_eq!(deck.draw_random(), Ok(Character::Duke));
}

#[test]
fn standard_deck_holds_three_of_each() {
    let mut deck = Deck::standard(DrawSource::random());
    assert_eq!(deck.total_count(), 15);
    assert_eq!(deck.discard_len(), 0);
    let mut counts = [0usize; 5];
    for _ in 0..15 {
        let c = deck.draw_random().expect("deck should hold fifteen cards");
        counts[c.index()] += 1;
    }
    assert_eq!(counts, [3, 3, 3, 3, 3]);
    assert_eq!(deck.total_count(), 0);
}

#[test]
fn exhausted_deck_fails_the_draw() {
    let mut deck = counted_deck([1, 0, 0, 0, 0], DrawSource::random());
    assert_eq!(deck.draw_random(), Ok(Character::Duke));
    assert_eq!(deck.draw_random(), Err(ActionError::DeckExhausted));
}

#[test]
fn reshuffle_folds_discard_back_in() {
    let mut deck = counted_deck([1, 0, 0, 0, 0], DrawSource::scripted(vec![0, 0, 1]));
    assert_eq!(deck.draw_random(), Ok(Character::Duke));
    assert_eq!(deck.total_count(), 0);
    deck.discard_card(Character::Contessa);
    deck.discard_card(Character::Captain);
    assert_eq!(deck.discard_len(), 2);
    // The deck proper is empty, so the draw reshuffles the pile first.
    // After the reshuffle the blocks are Captain 0, Contessa 1.
    assert_eq!(deck.draw_random(), Ok(Character::Captain));
    assert_eq!(deck.discard_len(), 0);
    assert_eq!(deck.total_count(), 1);
    assert_eq!(deck.draw_random(), Ok(Character::Contessa));
    assert_eq!(deck.draw_random(), Err(ActionError::DeckExhausted));
}

#[test]
fn return_card_reenters_circulation() {
    let mut deck = counted_deck([1, 0, 0, 0, 0], DrawSource::scripted(vec![0, 0]));
    assert_eq!(deck.draw_random(), Ok(Character::Duke));
    deck.return_card(Character::Duke);
    assert_eq!(deck.total_count(), 1);
    // Returned straight to the deck, not to the discard pile.
    assert_eq!(deck.discard_len(), 0);
    assert_eq!(deck.draw_random(), Ok(Character::Duke));
}
