//! Tests of the resolution engine: whole turns driven through the
//! counteraction and challenge windows, with a deterministically seeded
//! deck, plus the validation errors.

use coup_engine::catalog::Action;
use coup_engine::catalog::Character;
use coup_engine::deck::DrawSource;
use coup_engine::engine::Game;
use coup_engine::engine::TurnStep;
use coup_engine::error::ActionError;

/// All physical cards anywhere: deck, discard pile, every hand.
fn total_cards(g: &Game) -> usize {
    let mut held = 0;
    for i in 0..g.player_count() {
        held += g.influence_of(i);
    }
    g.deck_remaining() + g.discard_size() + held
}

/// A two-player game dealt from the given draw script.
fn two_player_game(script: Vec<usize>) -> Game {
    let mut g = Game::new(DrawSource::scripted(script), false);
    assert_eq!(g.add_player(String::from("Aldo")), Ok(0));
    assert_eq!(g.add_player(String::from("Bea")), Ok(1));
    g
}

fn income(g: &mut Game, seat: usize) {
    match g.propose_action(seat, Action::Income, None) {
        Ok(TurnStep::Done(o)) => {
            assert!(o.applied);
            assert_eq!(o.actor, seat);
        },
        other => panic!("income did not resolve: {:?}", status_of(&other)),
    }
}

fn status_of(r: &Result<TurnStep, ActionError>) -> String {
    match r {
        Ok(_) => String::from("ok"),
        Err(e) => format!("{:?}", e),
    }
}

// Script [3, 0, 10, 0, 0] deals Aldo [Assassin, Duke] and Bea
// [Contessa, Duke]; the last 0 is Bea's replacement draw after the
// reveal, a Duke.
#[test]
fn truthful_block_challenge_scenario() {
    let mut g = two_player_game(vec![3, 0, 10, 0, 0]);
    income(&mut g, 0);
    income(&mut g, 1);
    assert_eq!(g.coins_of(0), 3);

    // Aldo proposes Assassinate against Bea and pays three coins at once.
    let step = g.propose_action(0, Action::Assassinate, Some(1));
    match step {
        Ok(TurnStep::AwaitCounteraction { eligible }) => assert_eq!(eligible, vec![1]),
        other => panic!("expected counteraction window: {}", status_of(&other)),
    }
    assert_eq!(g.coins_of(0), 0);

    // Bea claims Contessa to block the assassination.
    match g.respond_counteraction(Some((1, Character::Contessa))) {
        Ok(TurnStep::AwaitChallenge { claimant, claimed, eligible }) => {
            assert_eq!(claimant, 1);
            assert_eq!(claimed, Character::Contessa);
            assert_eq!(eligible, vec![0]);
        },
        other => panic!("expected challenge window: {}", status_of(&other)),
    }

    // Aldo challenges; Bea truly holds the Contessa, so she reveals it,
    // returns it to the deck, draws a replacement, and Aldo must lose a
    // card of his choice.
    match g.respond_challenge(Some(0)) {
        Ok(TurnStep::AwaitInfluenceLoss { loser }) => assert_eq!(loser, 0),
        other => panic!("expected influence loss: {}", status_of(&other)),
    }
    // Bea's held-card count is unchanged by the reveal-and-redraw.
    assert_eq!(g.influence_of(1), 2);

    match g.choose_influence_loss(Character::Assassin) {
        Ok(TurnStep::Done(o)) => {
            assert!(!o.applied);
            assert!(o.blocked);
            assert!(o.challenged);
            assert_eq!(o.first_loss, Some(0));
            assert_eq!(o.second_loss, None);
            assert!(!o.any_eliminated);
        },
        other => panic!("expected completed turn: {}", status_of(&other)),
    }

    // The assassination never applied, the cost stayed paid, Aldo lost
    // exactly one influence, and every card is accounted for.
    assert_eq!(g.coins_of(0), 0);
    assert_eq!(g.influence_of(0), 1);
    assert_eq!(g.influence_of(1), 2);
    assert_eq!(total_cards(&g), 15);
    assert_eq!(g.current_player(), 1);
}

// Script [3, 0, 0, 0] deals Aldo [Assassin, Duke] and Bea [Duke, Duke].
#[test]
fn bluffed_block_loses_and_action_proceeds() {
    let mut g = two_player_game(vec![3, 0, 0, 0]);
    income(&mut g, 0);
    income(&mut g, 1);

    assert!(matches!(
        g.propose_action(0, Action::Assassinate, Some(1)),
        Ok(TurnStep::AwaitCounteraction { .. })
    ));
    // Bea claims Contessa without holding one.
    assert!(matches!(
        g.respond_counteraction(Some((1, Character::Contessa))),
        Ok(TurnStep::AwaitChallenge { .. })
    ));
    // Aldo challenges; the bluff is exposed and Bea must lose a card.
    match g.respond_challenge(Some(0)) {
        Ok(TurnStep::AwaitInfluenceLoss { loser }) => assert_eq!(loser, 1),
        other => panic!("expected influence loss: {}", status_of(&other)),
    }
    // The voided block lets the assassination proceed: Bea, still alive,
    // must now lose a second card to the assassination itself.
    match g.choose_influence_loss(Character::Duke) {
        Ok(TurnStep::AwaitInfluenceLoss { loser }) => assert_eq!(loser, 1),
        other => panic!("expected the assassination's loss: {}", status_of(&other)),
    }
    match g.choose_influence_loss(Character::Duke) {
        Ok(TurnStep::Done(o)) => {
            assert!(o.applied);
            assert!(!o.blocked);
            assert!(o.challenged);
            assert_eq!(o.first_loss, Some(1));
            assert_eq!(o.second_loss, Some(1));
            assert!(o.any_eliminated);
        },
        other => panic!("expected completed turn: {}", status_of(&other)),
    }

    assert_eq!(g.influence_of(1), 0);
    assert!(g.is_eliminated(1));
    assert_eq!(g.winner(), Some(0));
    // The assassination cost is not refunded.
    assert_eq!(g.coins_of(0), 0);
    assert_eq!(total_cards(&g), 15);
}

// Script [3, 0, 10, 0] deals Aldo [Assassin, Duke], Bea [Contessa, Duke].
#[test]
fn unchallenged_block_still_costs_the_assassin() {
    let mut g = two_player_game(vec![3, 0, 10, 0]);
    income(&mut g, 0);
    income(&mut g, 1);
    assert_eq!(g.coins_of(0), 3);

    assert!(matches!(
        g.propose_action(0, Action::Assassinate, Some(1)),
        Ok(TurnStep::AwaitCounteraction { .. })
    ));
    assert!(matches!(
        g.respond_counteraction(Some((1, Character::Contessa))),
        Ok(TurnStep::AwaitChallenge { .. })
    ));
    // Nobody challenges the block: the action is blocked, the turn ends.
    match g.respond_challenge(None) {
        Ok(TurnStep::Done(o)) => {
            assert!(!o.applied);
            assert!(o.blocked);
            assert!(!o.challenged);
        },
        other => panic!("expected completed turn: {}", status_of(&other)),
    }
    // The attempt's price stays paid; nobody lost influence.
    assert_eq!(g.coins_of(0), 0);
    assert_eq!(g.influence_of(0), 2);
    assert_eq!(g.influence_of(1), 2);
    assert_eq!(total_cards(&g), 15);
}

// Script [9, 0, 0, 0] deals Aldo [Captain, Duke] and Bea [Duke, Duke].
#[test]
fn steal_transfers_at_most_the_balance() {
    let mut g = two_player_game(vec![9, 0, 0, 0]);

    // First steal: Bea has two coins, both move.
    assert!(matches!(
        g.propose_action(0, Action::Steal, Some(1)),
        Ok(TurnStep::AwaitCounteraction { .. })
    ));
    assert!(matches!(
        g.respond_counteraction(None),
        Ok(TurnStep::AwaitChallenge { .. })
    ));
    match g.respond_challenge(None) {
        Ok(TurnStep::Done(o)) => assert!(o.applied),
        other => panic!("expected completed steal: {}", status_of(&other)),
    }
    assert_eq!(g.coins_of(0), 4);
    assert_eq!(g.coins_of(1), 0);

    // Bea earns a single coin back.
    income(&mut g, 1);
    assert_eq!(g.coins_of(1), 1);

    // Second steal: Bea has one coin, so only one moves — the balance
    // ends at zero, never negative.
    assert!(matches!(
        g.propose_action(0, Action::Steal, Some(1)),
        Ok(TurnStep::AwaitCounteraction { .. })
    ));
    assert!(matches!(
        g.respond_counteraction(None),
        Ok(TurnStep::AwaitChallenge { .. })
    ));
    assert!(matches!(g.respond_challenge(None), Ok(TurnStep::Done(_))));
    assert_eq!(g.coins_of(0), 5);
    assert_eq!(g.coins_of(1), 0);
    assert_eq!(total_cards(&g), 15);
}

// Script [6, 0, 0, 0, 0, 1] deals Aldo [Ambassador, Duke] and Bea
// [Duke, Duke]; the exchange then draws two Assassins.
#[test]
fn exchange_draws_two_and_returns_two() {
    let mut g = two_player_game(vec![6, 0, 0, 0, 0, 1]);

    match g.propose_action(0, Action::Exchange, None) {
        Ok(TurnStep::AwaitChallenge { claimant, claimed, .. }) => {
            assert_eq!(claimant, 0);
            assert_eq!(claimed, Character::Ambassador);
        },
        other => panic!("expected challenge window: {}", status_of(&other)),
    }
    match g.respond_challenge(None) {
        Ok(TurnStep::AwaitExchangeReturn { actor }) => assert_eq!(actor, 0),
        other => panic!("expected exchange return: {}", status_of(&other)),
    }
    assert_eq!(g.influence_of(0), 4);

    // Returning cards the actor does not hold is refused, and nothing
    // changes.
    assert_eq!(
        g.choose_exchange_return(Character::Contessa, Character::Contessa),
        Err(ActionError::CardNotHeld)
    );
    assert_eq!(g.influence_of(0), 4);

    // The two drawn Assassins go back.
    match g.choose_exchange_return(Character::Assassin, Character::Assassin) {
        Ok(TurnStep::Done(o)) => assert!(o.applied),
        other => panic!("expected completed exchange: {}", status_of(&other)),
    }
    assert_eq!(g.influence_of(0), 2);
    assert_eq!(g.deck_remaining(), 11);
    assert_eq!(total_cards(&g), 15);
}

#[test]
fn tax_can_be_challenged_and_punishes_the_challenger_when_true() {
    // Script [0, 0, 3, 1, 0]: Aldo [Duke, Duke], Bea [Assassin, Assassin];
    // the last 0 is Aldo's replacement draw.
    let mut g = two_player_game(vec![0, 0, 3, 1, 0]);
    assert!(matches!(
        g.propose_action(0, Action::Tax, None),
        Ok(TurnStep::AwaitChallenge { .. })
    ));
    match g.respond_challenge(Some(1)) {
        Ok(TurnStep::AwaitInfluenceLoss { loser }) => assert_eq!(loser, 1),
        other => panic!("expected influence loss: {}", status_of(&other)),
    }
    // Aldo's hand size is unchanged by the reveal.
    assert_eq!(g.influence_of(0), 2);
    match g.choose_influence_loss(Character::Assassin) {
        Ok(TurnStep::Done(o)) => {
            assert!(o.applied);
            assert!(o.challenged);
            assert!(!o.blocked);
        },
        other => panic!("expected completed turn: {}", status_of(&other)),
    }
    // The tax was applied after the failed challenge.
    assert_eq!(g.coins_of(0), 5);
    assert_eq!(g.influence_of(1), 1);
    assert_eq!(total_cards(&g), 15);
}

#[test]
fn eliminated_players_leave_windows_and_rotation() {
    // Same deal as the bluff scenario; Bea ends eliminated.
    let mut g = two_player_game(vec![3, 0, 0, 0]);
    income(&mut g, 0);
    income(&mut g, 1);
    assert!(matches!(
        g.propose_action(0, Action::Assassinate, Some(1)),
        Ok(TurnStep::AwaitCounteraction { .. })
    ));
    assert!(matches!(
        g.respond_counteraction(Some((1, Character::Contessa))),
        Ok(TurnStep::AwaitChallenge { .. })
    ));
    assert!(matches!(
        g.respond_challenge(Some(0)),
        Ok(TurnStep::AwaitInfluenceLoss { .. })
    ));
    assert!(matches!(
        g.choose_influence_loss(Character::Duke),
        Ok(TurnStep::AwaitInfluenceLoss { .. })
    ));
    assert!(matches!(g.choose_influence_loss(Character::Duke), Ok(TurnStep::Done(_))));
    assert!(g.is_eliminated(1));

    // The rotation skipped the eliminated Bea: it is Aldo's turn again.
    assert_eq!(g.current_player(), 0);

    // Bea no longer appears among eligible responders.
    match g.propose_action(0, Action::ForeignAid, None) {
        Ok(TurnStep::AwaitCounteraction { eligible }) => assert!(eligible.is_empty()),
        other => panic!("expected counteraction window: {}", status_of(&other)),
    }
    match g.respond_counteraction(None) {
        Ok(TurnStep::Done(o)) => assert!(o.applied),
        other => panic!("expected foreign aid to resolve: {}", status_of(&other)),
    }
    assert_eq!(g.current_player(), 0);
}

#[test]
fn conservation_holds_after_every_step() {
    let mut g = two_player_game(vec![3, 0, 10, 0, 0]);
    assert_eq!(total_cards(&g), 15);
    income(&mut g, 0);
    assert_eq!(total_cards(&g), 15);
    income(&mut g, 1);
    assert_eq!(total_cards(&g), 15);
    assert!(g.propose_action(0, Action::Assassinate, Some(1)).is_ok());
    assert_eq!(total_cards(&g), 15);
    assert!(g.respond_counteraction(Some((1, Character::Contessa))).is_ok());
    assert_eq!(total_cards(&g), 15);
    assert!(g.respond_challenge(Some(0)).is_ok());
    assert_eq!(total_cards(&g), 15);
    assert!(g.choose_influence_loss(Character::Duke).is_ok());
    assert_eq!(total_cards(&g), 15);
}

#[test]
fn proposal_validation_fails_closed() {
    let mut g = two_player_game(vec![0, 0, 0, 0]);

    // A coup costs seven coins; with two, the proposal is refused and
    // nothing changes.
    assert_eq!(
        g.propose_action(0, Action::Coup, Some(1)),
        Err(ActionError::InsufficientFunds)
    );
    assert_eq!(g.coins_of(0), 2);

    // Out of turn.
    assert_eq!(g.propose_action(1, Action::Income, None), Err(ActionError::NotYourTurn));

    // A steal must name a target, and not the actor.
    assert_eq!(g.propose_action(0, Action::Steal, None), Err(ActionError::InvalidTarget));
    assert_eq!(
        g.propose_action(0, Action::Steal, Some(0)),
        Err(ActionError::InvalidTarget)
    );
    assert_eq!(
        g.propose_action(0, Action::Steal, Some(9)),
        Err(ActionError::InvalidTarget)
    );

    // Income takes no target.
    assert_eq!(
        g.propose_action(0, Action::Income, Some(1)),
        Err(ActionError::InvalidTarget)
    );

    // No window is open yet.
    assert_eq!(g.respond_challenge(None), Err(ActionError::WrongPhase));
    assert_eq!(g.respond_counteraction(None), Err(ActionError::WrongPhase));
    assert_eq!(
        g.choose_influence_loss(Character::Duke),
        Err(ActionError::WrongPhase)
    );
    assert_eq!(
        g.choose_exchange_return(Character::Duke, Character::Duke),
        Err(ActionError::WrongPhase)
    );

    assert_eq!(total_cards(&g), 15);
}

#[test]
fn window_validation_fails_closed() {
    let mut g = two_player_game(vec![3, 0, 10, 0]);
    income(&mut g, 0);
    income(&mut g, 1);
    assert!(matches!(
        g.propose_action(0, Action::Assassinate, Some(1)),
        Ok(TurnStep::AwaitCounteraction { .. })
    ));

    // The actor cannot block their own action.
    assert_eq!(
        g.respond_counteraction(Some((0, Character::Contessa))),
        Err(ActionError::NotEligible)
    );
    // A Duke claim blocks foreign aid, not an assassination.
    assert_eq!(
        g.respond_counteraction(Some((1, Character::Duke))),
        Err(ActionError::InvalidClaim)
    );

    assert!(matches!(
        g.respond_counteraction(Some((1, Character::Contessa))),
        Ok(TurnStep::AwaitChallenge { .. })
    ));
    // The claimant cannot challenge their own claim.
    assert_eq!(g.respond_challenge(Some(1)), Err(ActionError::NotEligible));

    // A truthful reveal, then the challenger must give up a held card.
    assert!(matches!(
        g.respond_challenge(Some(0)),
        Ok(TurnStep::AwaitInfluenceLoss { .. })
    ));
    assert_eq!(
        g.choose_influence_loss(Character::Contessa),
        Err(ActionError::CardNotHeld)
    );
    assert!(matches!(g.choose_influence_loss(Character::Duke), Ok(TurnStep::Done(_))));
}

#[test]
fn coup_is_unconditional_and_costs_seven() {
    // Aldo [Assassin, Duke], Bea [Duke, Duke].
    let mut g = two_player_game(vec![3, 0, 0, 0]);
    for _ in 0..5 {
        income(&mut g, 0);
        income(&mut g, 1);
    }
    assert_eq!(g.coins_of(0), 7);

    // A coup opens no window at all: straight to the target's loss.
    match g.propose_action(0, Action::Coup, Some(1)) {
        Ok(TurnStep::AwaitInfluenceLoss { loser }) => assert_eq!(loser, 1),
        other => panic!("expected influence loss: {}", status_of(&other)),
    }
    assert_eq!(g.coins_of(0), 0);
    match g.choose_influence_loss(Character::Duke) {
        Ok(TurnStep::Done(o)) => {
            assert!(o.applied);
            assert!(!o.challenged);
            assert!(!o.blocked);
        },
        other => panic!("expected completed coup: {}", status_of(&other)),
    }
    assert_eq!(g.influence_of(1), 1);
    assert_eq!(total_cards(&g), 15);
}

#[test]
fn seating_needs_two_cards() {
    let mut g = Game::new(DrawSource::random(), false);
    for i in 0..7 {
        assert_eq!(g.add_player(format!("p{}", i)), Ok(i));
    }
    // Fourteen of the fifteen cards are dealt; one is left.
    assert_eq!(g.add_player(String::from("late")), Err(ActionError::DeckExhausted));
    assert_eq!(g.player_count(), 7);
}

#[test]
fn views_hide_other_hands() {
    let mut g = two_player_game(vec![3, 0, 10, 0]);
    let v = g.current_player_view(0);
    assert_eq!(v.coins, 2);
    assert_eq!(v.hand, vec![Character::Assassin, Character::Duke]);
    assert_eq!(v.others.len(), 1);
    assert_eq!(v.others[0].seat, 1);
    assert_eq!(v.others[0].coins, 2);
    assert_eq!(v.others[0].influence, 2);
    assert!(!v.others[0].eliminated);

    let s = g.session_state_summary();
    assert_eq!(s.seats.len(), 2);
    assert_eq!(s.deck_remaining, 11);
    assert_eq!(s.discard_size, 0);
    assert_eq!(s.seats[0].influence, 2);
    assert_eq!(g.player_name(1).as_str(), "Bea");
    income(&mut g, 0);
}

#[test]
fn a_full_game_reaches_a_winner() {
    let mut g = Game::new(DrawSource::random(), false);
    for name in ["Aldo", "Bea", "Cal"] {
        assert!(g.add_player(String::from(name)).is_ok());
    }
    let mut guard = 0;
    while g.winner().is_none() {
        guard += 1;
        assert!(guard < 200, "the game did not end");
        let me = g.current_player();
        if g.coins_of(me) >= 7 {
            // Coup the next living player; the victim gives up their
            // first held card.
            let n = g.player_count();
            let mut t = (me + 1) % n;
            while g.is_eliminated(t) {
                t = (t + 1) % n;
            }
            match g.propose_action(me, Action::Coup, Some(t)) {
                Ok(TurnStep::AwaitInfluenceLoss { loser }) => {
                    let card = g.own_hand(loser)[0];
                    assert!(matches!(g.choose_influence_loss(card), Ok(TurnStep::Done(_))));
                },
                other => panic!("coup failed: {}", status_of(&other)),
            }
        } else {
            // Tax, claiming Duke; nobody challenges.
            assert!(matches!(
                g.propose_action(me, Action::Tax, None),
                Ok(TurnStep::AwaitChallenge { .. })
            ));
            assert!(matches!(g.respond_challenge(None), Ok(TurnStep::Done(_))));
        }
        assert_eq!(total_cards(&g), 15);
    }
    let w = g.winner().expect("the loop ended with a winner");
    assert!(!g.is_eliminated(w));
    for i in 0..g.player_count() {
        if i != w {
            assert!(g.is_eliminated(i));
        }
    }
}

#[test]
fn any_can_block_widens_the_counter_window() {
    let mut g = Game::new(DrawSource::scripted(vec![9, 0, 0, 0, 0, 0]), true);
    assert_eq!(g.add_player(String::from("Aldo")), Ok(0));
    assert_eq!(g.add_player(String::from("Bea")), Ok(1));
    assert_eq!(g.add_player(String::from("Cal")), Ok(2));

    // With the house rule on, a steal can be blocked by any living
    // player, not only the target.
    match g.propose_action(0, Action::Steal, Some(1)) {
        Ok(TurnStep::AwaitCounteraction { eligible }) => assert_eq!(eligible, vec![1, 2]),
        other => panic!("expected counteraction window: {}", status_of(&other)),
    }
    assert!(matches!(
        g.respond_counteraction(Some((2, Character::Ambassador))),
        Ok(TurnStep::AwaitChallenge { .. })
    ));
    match g.respond_challenge(None) {
        Ok(TurnStep::Done(o)) => assert!(o.blocked),
        other => panic!("expected blocked steal: {}", status_of(&other)),
    }
    assert_eq!(g.coins_of(1), 2);
}
