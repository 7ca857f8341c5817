//! The game session and the turn resolution engine.
//!
//! A `Game` owns the deck and the ordered players. One proposed play
//! drives a pass through the turn state machine: proposal, then a
//! counteraction window, then a challenge window against whichever claim
//! is on the table, then resolution of the surviving action. The windows
//! are synchronous decision points: each stepping method returns what the
//! engine awaits next, and the embedding layer supplies the responses.
//!
//! The engine maintains card conservation: the deck, the discard pile and
//! all hands together always hold exactly the cards minted at the start.
//! Every mutating method's contract says so.

use vstd::prelude::*;

use crate::catalog::Action;
use crate::catalog::Character;
use crate::catalog::Counteraction;
use crate::catalog::counteraction_for;
use crate::catalog::counteraction_for_spec;
use crate::catalog::grants_counteraction;
use crate::catalog::grants_counteraction_spec;
use crate::catalog::requires_character;
use crate::catalog::requires_character_spec;
use crate::counting::count_of_char;
use crate::deck::DECK_CAP;
use crate::deck::Deck;
use crate::deck::DrawSource;
use crate::error::ActionError;
use crate::player::Player;

verus! {

/// Starting coin stake of a freshly seated player.
pub const STARTING_COINS: u64 = 2;

/// Cards dealt to a freshly seated player.
pub const STARTING_CARDS: usize = 2;

/// One proposed play: the acting player, the action, and the target the
/// action is aimed at, if it takes one. Players are referenced by their
/// seat index, stable for the session.
#[derive(Clone, Copy, Debug, PartialEq, Eq, Structural)]
pub struct Play {
    pub actor: usize,
    pub action: Action,
    pub target: Option<usize>,
}

/// What happens once a pending influence loss has been taken.
#[derive(Clone, Copy, Debug, PartialEq, Eq, Structural)]
pub enum AfterLoss {
    /// The surviving action still resolves (a voided counteraction bluff,
    /// or a truthful original claim).
    ResolveAction,
    /// The turn is over after the loss.
    EndTurn,
}

/// Where inside one turn's resolution the engine stands.
#[derive(Clone, Copy, Debug, PartialEq, Eq, Structural)]
pub enum Phase {
    /// Other players may claim a blocking character.
    AwaitCounteraction,
    /// A character claim is on the table; other players may challenge it.
    /// `counter` tells whether the claim is a counteraction (else it is
    /// the original action's claim, and the claimant is the actor).
    AwaitChallenge { claimant: usize, claimed: Character, counter: bool },
    /// A player must choose one held card to give up.
    AwaitInfluenceLoss { loser: usize, after: AfterLoss },
    /// The actor drew two cards and must choose two to return.
    AwaitExchangeReturn,
}

/// The transient state of the turn being resolved.
#[derive(Clone, Copy, Debug, PartialEq, Eq, Structural)]
pub struct Turn {
    pub play: Play,
    pub phase: Phase,
    /// A challenge was raised during this turn.
    pub challenged: bool,
    /// A counteraction stood, so the action is blocked.
    pub blocked: bool,
    /// The action's effect was (or, for a pending coup or assassination
    /// loss, will on completion have been) applied.
    pub applied: bool,
    /// Players who lost influence this turn, in order. At most two can:
    /// the loser of the challenge and the victim of the effect.
    pub first_loss: Option<usize>,
    pub second_loss: Option<usize>,
}

/// The structured outcome of a completed turn.
#[derive(Clone, Copy, Debug, PartialEq, Eq, Structural)]
pub struct TurnOutcome {
    pub action: Action,
    pub actor: usize,
    pub target: Option<usize>,
    /// The action's effect was applied.
    pub applied: bool,
    /// A counteraction stood and blocked the action.
    pub blocked: bool,
    /// A challenge was raised during the turn.
    pub challenged: bool,
    /// Players who lost influence this turn, in order.
    pub first_loss: Option<usize>,
    pub second_loss: Option<usize>,
    /// A loss this turn left some player with no influence cards.
    pub any_eliminated: bool,
}

/// What one player may know of an opponent: coins and counts only. This
/// view carries no `Character`: another player's hidden cards can never
/// leak through it.
#[derive(Clone, Copy, Debug, PartialEq, Eq, Structural)]
pub struct OpponentView {
    pub seat: usize,
    pub coins: u64,
    pub influence: usize,
    pub eliminated: bool,
}

/// What one player sees of the table: the own hand in full detail, the
/// own coins, and of every other player only coins and held-card counts.
pub struct PlayerView {
    pub coins: u64,
    pub hand: Vec<Character>,
    pub others: Vec<OpponentView>,
}

/// Aggregate counts for spectators and logs: no card identities at all.
pub struct SessionSummary {
    pub seats: Vec<OpponentView>,
    pub deck_remaining: usize,
    pub discard_size: usize,
}

/// What the engine awaits next, returned by every stepping method.
#[derive(Debug, PartialEq, Eq)]
pub enum TurnStep {
    /// The listed players, in rotation order from the actor's left, may
    /// claim a blocking character or pass.
    AwaitCounteraction { eligible: Vec<usize> },
    /// The listed players, in rotation order from the claimant's left,
    /// may challenge the claim or pass.
    AwaitChallenge { claimant: usize, claimed: Character, eligible: Vec<usize> },
    /// The named player must choose one held card to give up.
    AwaitInfluenceLoss { loser: usize },
    /// The actor must choose two held cards to return to the deck.
    AwaitExchangeReturn { actor: usize },
    /// The turn is complete.
    Done(TurnOutcome),
}

/// Total influence cards held by all players.
pub open spec fn held_total(ps: Seq<Player>) -> int
    decreases ps.len(),
{
    if ps.len() == 0 {
        0
    } else {
        held_total(ps.drop_last()) + ps.last().hand().len()
    }
}

/// Held totals are non-negative.
pub proof fn lemma_held_total_nonneg(ps: Seq<Player>)
    ensures
        held_total(ps) >= 0,
    decreases ps.len(),
{
    if ps.len() > 0 {
        lemma_held_total_nonneg(ps.drop_last());
    }
}

/// Replacing one player changes the held total by that player's hand
/// difference.
pub proof fn lemma_held_total_update(ps: Seq<Player>, i: int, p: Player)
    requires
        0 <= i < ps.len(),
    ensures
        held_total(ps.update(i, p)) == held_total(ps) - ps[i].hand().len() + p.hand().len(),
    decreases ps.len(),
{
    if i == ps.len() - 1 {
        assert(ps.update(i, p).drop_last() =~= ps.drop_last());
    } else {
        assert(ps.update(i, p).drop_last() =~= ps.drop_last().update(i, p));
        lemma_held_total_update(ps.drop_last(), i, p);
    }
}

/// Seating one more player adds that player's hand to the held total.
pub proof fn lemma_held_total_push(ps: Seq<Player>, p: Player)
    ensures
        held_total(ps.push(p)) == held_total(ps) + p.hand().len(),
{
    assert(ps.push(p).drop_last() =~= ps);
}

/// Each player's hand is no larger than the held total.
pub proof fn lemma_held_total_bounds(ps: Seq<Player>, i: int)
    requires
        0 <= i < ps.len(),
    ensures
        ps[i].hand().len() <= held_total(ps),
    decreases ps.len(),
{
    lemma_held_total_nonneg(ps.drop_last());
    if i < ps.len() - 1 {
        lemma_held_total_bounds(ps.drop_last(), i);
    }
}

/// The upfront coin cost of proposing an action, paid before any window
/// opens and never refunded.
pub open spec fn action_cost(a: Action) -> int {
    match a {
        Action::Coup => 7,
        Action::Assassinate => 3,
        _ => 0,
    }
}

/// Whether an action is aimed at a target player.
pub open spec fn needs_target(a: Action) -> bool {
    a == Action::Coup || a == Action::Assassinate || a == Action::Steal
}

/// The listed seats are unchanged players everywhere but at `a` and `b`.
pub open spec fn players_same_except(pre: Seq<Player>, post: Seq<Player>, a: int, b: int) -> bool {
    post.len() == pre.len() && forall|j: int|
        0 <= j < pre.len() && j != a && j != b ==> post[j] == pre[j]
}

/// Only the coin balance moved, by `d`; hand and name are untouched.
pub open spec fn coin_delta_only(pre: Player, post: Player, d: int) -> bool {
    &&& post.coins() == pre.coins() + d
    &&& post.hand() == pre.hand()
    &&& post.name_spec() == pre.name_spec()
}

/// Exactly one card of character `c` left the hand; coins and name are
/// untouched.
pub open spec fn hand_lost_one(pre: Player, post: Player, c: Character) -> bool {
    &&& post.hand().len() == pre.hand().len() - 1
    &&& count_of_char(post.hand(), c) == count_of_char(pre.hand(), c) - 1
    &&& (forall|d: Character| d != c ==> count_of_char(post.hand(), d) == count_of_char(
        pre.hand(),
        d,
    ))
    &&& post.coins() == pre.coins()
    &&& post.name_spec() == pre.name_spec()
}

/// What a steal takes: the claimed two coins, capped at the target's
/// balance — a steal never drives a balance negative.
pub open spec fn steal_amount(target_coins: int) -> int {
    if target_coins < 2 {
        target_coins
    } else {
        2
    }
}

/// Position of seat `i` in rotation order starting at the left of seat
/// `from`: 1 for the next seat, up to `n` for `from` itself.
pub open spec fn rot_pos(from: int, i: int, n: int) -> int {
    if i == from {
        n
    } else if i > from {
        i - from
    } else {
        i - from + n
    }
}

/// The game session: the shared deck, the seated players in turn order,
/// the turn being resolved if one is, and whose turn it is.
pub struct Game {
    players: Vec<Player>,
    deck: Deck,
    turn: Option<Turn>,
    current: usize,
    any_can_block: bool,
}

impl Game {
    /// The seated players, in rotation order.
    pub closed spec fn players(self) -> Seq<Player> {
        self.players@
    }

    /// The shared deck.
    pub closed spec fn deck(self) -> Deck {
        self.deck
    }

    /// The turn being resolved, if one is.
    pub closed spec fn turn(self) -> Option<Turn> {
        self.turn
    }

    /// Seat index of the player whose turn it is.
    pub closed spec fn current(self) -> int {
        self.current as int
    }

    /// House-rule flag: whether any player (not only the target) may
    /// counteract a steal or an assassination.
    pub closed spec fn any_can_block_spec(self) -> bool {
        self.any_can_block
    }

    /// All physical cards in play: deck, discard pile and every hand.
    /// Constant across every operation after the deck is minted.
    pub open spec fn total_cards(self) -> int {
        self.deck().total_physical() + held_total(self.players())
    }

    /// Cards of one character in play anywhere.
    pub open spec fn char_cards(self, c: Character) -> int {
        self.deck().char_total(c) + held_by_players(self.players(), c)
    }

    /// Enough room below the machine's coin limit for one turn's gains.
    /// The bank is unbounded in the rules; this is the machine's bound,
    /// which the embedding layer checks before stepping the engine.
    pub open spec fn coin_headroom(self) -> bool {
        forall|i: int|
            0 <= i < self.players().len() ==> self.players()[i].coins() + 8 <= u64::MAX
    }

    /// Structural validity of a proposed play against this session.
    pub open spec fn play_wf(self, p: Play) -> bool {
        let n = self.players().len() as int;
        &&& p.actor < n
        &&& (match p.target {
            Some(x) => x < n && x != p.actor,
            None => true,
        })
        &&& (needs_target(p.action) <==> p.target is Some)
    }

    /// Structural validity of a stored turn.
    pub open spec fn turn_wf(self, t: Turn) -> bool {
        let n = self.players().len() as int;
        &&& self.play_wf(t.play)
        &&& (match t.first_loss {
            Some(l) => l < n,
            None => true,
        })
        &&& (match t.second_loss {
            Some(l) => l < n,
            None => true,
        })
        &&& (match t.phase {
            Phase::AwaitCounteraction => counteraction_for_spec(t.play.action)
                != Counteraction::NoBlock && !self.players()[t.play.actor as int].eliminated(),
            Phase::AwaitChallenge { claimant, claimed, counter } => claimant < n && !self.players()[
                claimant as int
            ].eliminated() && (!counter ==> claimant == t.play.actor && requires_character_spec(
                t.play.action,
            ) == Some(claimed)) && (counter ==> claimant != t.play.actor
                && counteraction_for_spec(t.play.action) != Counteraction::NoBlock),
            Phase::AwaitInfluenceLoss { loser, after } => loser < n && !self.players()[
                loser as int
            ].eliminated() && (after == AfterLoss::ResolveAction ==> loser != t.play.actor
                && t.play.action != Action::Income && t.play.action != Action::Coup),
            Phase::AwaitExchangeReturn => t.play.action == Action::Exchange
                && self.players()[t.play.actor as int].hand().len() >= 2,
        })
    }

    /// Bounds that every operation keeps, whatever turn is pending.
    pub open spec fn base_wf(self) -> bool {
        &&& self.deck().wf()
        &&& self.total_cards() <= DECK_CAP as int
        &&& (self.players().len() == 0 ==> self.current() == 0)
        &&& (self.players().len() > 0 ==> self.current() < self.players().len())
    }

    /// Well-formedness of the whole session, preserved by every
    /// operation.
    pub open spec fn wf(self) -> bool {
        &&& self.base_wf()
        &&& (match self.turn() {
            Some(t) => self.turn_wf(t),
            None => true,
        })
    }

    /// Whether seat `i` may claim a counteraction against the pending
    /// play `t`: alive, not the actor, and — for a steal or an
    /// assassination without the any-may-block house rule — the target.
    pub open spec fn may_counteract(self, t: Turn, i: int) -> bool {
        &&& 0 <= i < self.players().len()
        &&& i != t.play.actor
        &&& !self.players()[i].eliminated()
        &&& (t.play.action == Action::ForeignAid || self.any_can_block_spec() || t.play.target
            == Some(i as usize))
    }

    /// Whether seat `i` may challenge a claim by `claimant`: alive and
    /// not the claimant.
    pub open spec fn may_challenge(self, claimant: int, i: int) -> bool {
        &&& 0 <= i < self.players().len()
        &&& i != claimant
        &&& !self.players()[i].eliminated()
    }

    /// The rotation moved to the first non-eliminated seat after the
    /// previous current one (the seat itself counts last); unchanged if
    /// nobody is left alive.
    pub open spec fn rotation_advanced(pre: Game, post: Game) -> bool {
        let n = post.players().len() as int;
        if exists|i: int| 0 <= i < n && !post.players()[i].eliminated() {
            &&& 0 <= post.current() < n
            &&& !post.players()[post.current()].eliminated()
            &&& forall|i: int|
                0 <= i < n && !post.players()[i].eliminated() ==> rot_pos(
                    pre.current(),
                    post.current(),
                    n,
                ) <= rot_pos(pre.current(), i, n)
        } else {
            post.current() == pre.current()
        }
    }

    /// A fresh session: the canonical deck of three cards of each of the
    /// five characters, no players seated yet.
    pub fn new(source: DrawSource, any_can_block: bool) -> (g: Game)
        requires
            source.wf(),
        ensures
            g.wf(),
            g.players().len() == 0,
            g.turn() is None,
            g.current() == 0,
            g.any_can_block_spec() == any_can_block,
            g.total_cards() == 15,
            forall|c: Character| g.char_cards(c) == 3,
            g.deck().pile() == Seq::<Character>::empty(),
            forall|c: Character| g.deck().count_of(c) == 3,
            g.deck().deck_total() == 15,
            g.deck().source_remaining() == source.remaining(),
    {
        let g = Game {
            players: Vec::new(),
            deck: Deck::standard(source),
            turn: None,
            current: 0,
            any_can_block,
        };
        g
    }

    /// Seat a new player: two cards are dealt from the deck and the
    /// starting stake of coins is granted. Fails with `DeckExhausted`,
    /// changing nothing, exactly when fewer than two cards remain in deck
    /// and discard pile together. On success the new seat index is
    /// returned and the total card count is unchanged: the dealt cards
    /// moved from the pool into the new hand. Under a scripted draw
    /// source the dealt hand is determined by the script's first two
    /// values.
    pub fn add_player(&mut self, name: String) -> (r: Result<usize, ActionError>)
        requires
            old(self).wf(),
            old(self).turn() is None,
        ensures
            final(self).wf(),
            final(self).turn() is None,
            final(self).current() == old(self).current(),
            final(self).total_cards() == old(self).total_cards(),
            forall|c: Character| final(self).char_cards(c) == old(self).char_cards(c),
            match r {
                Ok(i) => {
                    &&& i == old(self).players().len()
                    &&& final(self).players().len() == old(self).players().len() + 1
                    &&& (forall|j: int|
                        0 <= j < old(self).players().len() ==> final(self).players()[j] == old(
                            self,
                        ).players()[j])
                    &&& final(self).players()[i as int].hand().len() == STARTING_CARDS
                    &&& final(self).players()[i as int].coins() == STARTING_COINS
                    &&& final(self).players()[i as int].name_spec() == name@
                    &&& (forall|c: Character| final(self).char_cards(c) == old(self).char_cards(c))
                },
                Err(e) => e == ActionError::DeckExhausted && *final(self) == *old(self) && old(
                    self,
                ).deck().total_physical() < 2,
            },
            r is Ok <==> old(self).deck().total_physical() >= 2,
            old(self).deck().deck_total() >= 2 && old(self).deck().source_remaining().len() >= 2
                ==> {
                let s = old(self).deck().source_remaining();
                let t = old(self).deck().deck_total();
                let c1 = old(self).deck().card_at(s[0] as int % t);
                let c2 = old(self).deck().card_at_after(c1, s[1] as int % (t - 1));
                &&& final(self).players()[old(self).players().len() as int].hand() == seq![c1, c2]
                &&& final(self).deck().source_remaining() == s.subrange(2, s.len() as int)
            },
    {
        let pool = self.deck.total_count() + self.deck.discard_len();
        if pool < 2 {
            return Err(ActionError::DeckExhausted);
        }
        proof {
            lemma_held_total_nonneg(self.players@);
        }
        let mut p = Player::new(name, STARTING_COINS);
        let c1 = match self.deck.draw_random() {
            Ok(c) => c,
            Err(_) => {
                return Err(ActionError::DeckExhausted);
            },
        };
        let ghost mid = self.deck();
        let c2 = match self.deck.draw_random() {
            Ok(c) => c,
            Err(_) => vstd::pervasive::unreached(),
        };
        proof {
            if old(self).deck().deck_total() >= 2 && old(self).deck().source_remaining().len()
                >= 2 {
                let s = old(self).deck().source_remaining();
                let t = old(self).deck().deck_total();
                assert(mid.pile() == old(self).deck().pile());
                assert forall|d: Character|
                    mid.count_of(d) == old(self).deck().count_of(d) - (if d == c1 {
                        1int
                    } else {
                        0int
                    }) by {
                    if d != c1 {
                        assert(mid.char_total(d) == old(self).deck().char_total(d));
                    } else {
                        assert(mid.char_total(d) == old(self).deck().char_total(d) - 1);
                    }
                }
                assert(mid.deck_total() == t - 1);
                assert(mid.source_remaining()[0] == s[1]);
                assert(c2 == mid.card_at(s[1] as int % (t - 1)));
                assert(c2 == old(self).deck().card_at_after(c1, s[1] as int % (t - 1)));
            }
        }
        p.gain_card(c1);
        p.gain_card(c2);
        let i = self.players.len();
        proof {
            lemma_held_total_push(self.players@, p);
        }
        self.players.push(p);
        proof {
            assert forall|c: Character| self.char_cards(c) == old(self).char_cards(c) by {
                lemma_held_by_players_push(old(self).players(), p, c);
            }
            if old(self).deck().deck_total() >= 2 && old(self).deck().source_remaining().len()
                >= 2 {
                let s = old(self).deck().source_remaining();
                let t = old(self).deck().deck_total();
                assert(c1 == old(self).deck().card_at(s[0] as int % t));
                assert(c2 == old(self).deck().card_at_after(c1, s[1] as int % (t - 1)));
                assert(p.hand() =~= seq![c1, c2]);
                assert(self.deck().source_remaining() =~= s.subrange(2, s.len() as int));
            }
        }
        Ok(i)
    }
    /// How many players are seated.
    pub fn player_count(&self) -> (r: usize)
        ensures
            r == self.players().len(),
    {
        self.players.len()
    }

    /// Seat index of the player whose turn it is.
    pub fn current_player(&self) -> (r: usize)
        ensures
            r == self.current(),
    {
        self.current
    }

    /// Coin balance of the player at seat `i`.
    pub fn coins_of(&self, i: usize) -> (r: u64)
        requires
            i < self.players().len(),
        ensures
            r == self.players()[i as int].coins(),
    {
        self.players[i].coin_balance()
    }

    /// Influence cards still held by the player at seat `i`.
    pub fn influence_of(&self, i: usize) -> (r: usize)
        requires
            i < self.players().len(),
        ensures
            r == self.players()[i as int].hand().len(),
    {
        self.players[i].influence_count()
    }

    /// Whether the player at seat `i` is eliminated.
    pub fn is_eliminated(&self, i: usize) -> (r: bool)
        requires
            i < self.players().len(),
        ensures
            r == self.players()[i as int].eliminated(),
    {
        self.players[i].is_eliminated()
    }

    /// Name of the player at seat `i`.
    pub fn player_name(&self, i: usize) -> (r: &String)
        requires
            i < self.players().len(),
        ensures
            r@ == self.players()[i as int].name_spec(),
    {
        self.players[i].name()
    }

    /// The hand of the player at seat `i`: full detail, for that player's
    /// own eyes. The partial-information views below never expose it.
    pub fn own_hand(&self, i: usize) -> (v: Vec<Character>)
        requires
            i < self.players().len(),
        ensures
            v@ == self.players()[i as int].hand(),
    {
        self.players[i].hand_cards()
    }

    /// Cards remaining in the deck proper.
    pub fn deck_remaining(&self) -> (r: usize)
        requires
            self.wf(),
        ensures
            r == self.deck().deck_total(),
    {
        self.deck.total_count()
    }

    /// Size of the discard pile.
    pub fn discard_size(&self) -> (r: usize)
        ensures
            r == self.deck().pile().len(),
    {
        self.deck.discard_len()
    }

    /// The table as seat `i` may see it: the own hand and coins in full,
    /// and of every other player only coins, held-card count and
    /// elimination — never another player's character identities.
    pub fn current_player_view(&self, i: usize) -> (v: PlayerView)
        requires
            i < self.players().len(),
        ensures
            v.coins == self.players()[i as int].coins(),
            v.hand@ == self.players()[i as int].hand(),
            v.others@.len() == self.players().len() - 1,
            forall|k: int|
                #![trigger v.others@[k]]
                0 <= k < v.others@.len() ==> {
                    let s = (if k < i as int {
                        k
                    } else {
                        k + 1
                    });
                    &&& v.others@[k].seat == s
                    &&& v.others@[k].coins == self.players()[s].coins()
                    &&& v.others@[k].influence == self.players()[s].hand().len()
                    &&& v.others@[k].eliminated == self.players()[s].eliminated()
                },
    {
        let mut others: Vec<OpponentView> = Vec::new();
        let n = self.players.len();
        let mut j: usize = 0;
        while j < n
            invariant
                j <= n,
                n == self.players().len(),
                i < n,
                others@.len() == (if j <= i {
                    j as int
                } else {
                    j as int - 1
                }),
                forall|k: int|
                    #![trigger others@[k]]
                    0 <= k < others@.len() ==> {
                        let s = (if k < i as int {
                            k
                        } else {
                            k + 1
                        });
                        &&& others@[k].seat == s
                        &&& others@[k].coins == self.players()[s].coins()
                        &&& others@[k].influence == self.players()[s].hand().len()
                        &&& others@[k].eliminated == self.players()[s].eliminated()
                    },
            decreases n - j,
        {
            if j != i {
                others.push(
                    OpponentView {
                        seat: j,
                        coins: self.players[j].coin_balance(),
                        influence: self.players[j].influence_count(),
                        eliminated: self.players[j].is_eliminated(),
                    },
                );
            }
            j += 1;
        }
        PlayerView {
            coins: self.players[i].coin_balance(),
            hand: self.players[i].hand_cards(),
            others,
        }
    }

    /// Aggregate counts only, for spectator or log display: per seat the
    /// coins, remaining influence count and elimination flag, plus the
    /// deck's remaining total and the discard pile's size. No card
    /// identity appears anywhere in it.
    pub fn session_state_summary(&self) -> (s: SessionSummary)
        requires
            self.wf(),
        ensures
            s.seats@.len() == self.players().len(),
            forall|k: int|
                0 <= k < s.seats@.len() ==> {
                    &&& s.seats@[k].seat == k
                    &&& s.seats@[k].coins == self.players()[k].coins()
                    &&& s.seats@[k].influence == self.players()[k].hand().len()
                    &&& s.seats@[k].eliminated == self.players()[k].eliminated()
                },
            s.deck_remaining == self.deck().deck_total(),
            s.discard_size == self.deck().pile().len(),
    {
        let mut seats: Vec<OpponentView> = Vec::new();
        let n = self.players.len();
        let mut j: usize = 0;
        while j < n
            invariant
                j <= n,
                n == self.players().len(),
                seats@.len() == j,
                forall|k: int|
                    0 <= k < j ==> {
                        &&& seats@[k].seat == k
                        &&& seats@[k].coins == self.players()[k].coins()
                        &&& seats@[k].influence == self.players()[k].hand().len()
                        &&& seats@[k].eliminated == self.players()[k].eliminated()
                    },
            decreases n - j,
        {
            seats.push(
                OpponentView {
                    seat: j,
                    coins: self.players[j].coin_balance(),
                    influence: self.players[j].influence_count(),
                    eliminated: self.players[j].is_eliminated(),
                },
            );
            j += 1;
        }
        SessionSummary {
            seats,
            deck_remaining: self.deck.total_count(),
            discard_size: self.deck.discard_len(),
        }
    }

    /// The winner, if the game is over: the unique player still holding
    /// influence. `None` while two or more players are alive, or when no
    /// player is seated or alive.
    pub fn winner(&self) -> (r: Option<usize>)
        ensures
            match r {
                Some(i) => i < self.players().len() && !self.players()[i as int].eliminated()
                    && forall|j: int|
                    0 <= j < self.players().len() && j != i ==> self.players()[j].eliminated(),
                None => forall|i: int|
                    0 <= i < self.players().len() && !self.players()[i].eliminated()
                        ==> exists|j: int|
                        0 <= j < self.players().len() && j != i && !self.players()[
                            j
                        ].eliminated(),
            },
    {
        let n = self.players.len();
        let mut found: Option<usize> = None;
        let mut multiple: bool = false;
        let mut i: usize = 0;
        while i < n
            invariant
                n == self.players().len(),
                i <= n,
                match found {
                    None => !multiple && forall|j: int|
                        0 <= j < i ==> self.players()[j].eliminated(),
                    Some(x) => x < i && !self.players()[x as int].eliminated(),
                },
                multiple ==> found is Some && exists|j: int|
                    0 <= j < i && Some(j as usize) != found && !self.players()[j].eliminated(),
                !multiple && found is Some ==> forall|j: int|
                    0 <= j < i && Some(j as usize) != found ==> self.players()[j].eliminated(),
            decreases n - i,
        {
            if !self.players[i].is_eliminated() {
                match found {
                    None => {
                        found = Some(i);
                    },
                    Some(_) => {
                        multiple = true;
                    },
                }
            }
            i += 1;
        }
        if multiple {
            None
        } else {
            found
        }
    }

    /// The eligible responders, in rotation order starting at the left of
    /// seat `from`: every living player other than `from` — restricted to
    /// the one seat `only` names, when given.
    fn responders_from(&self, from: usize, only: Option<usize>) -> (v: Vec<usize>)
        requires
            self.wf(),
            from < self.players().len(),
        ensures
            forall|k: int|
                0 <= k < v@.len() ==> v@[k] < self.players().len() && v@[k] != from
                    && !self.players()[v@[k] as int].eliminated() && (match only {
                    Some(t) => v@[k] == t,
                    None => true,
                }),
            forall|i: usize|
                i < self.players().len() && i != from && !self.players()[i as int].eliminated()
                    && (match only {
                    Some(t) => i == t,
                    None => true,
                }) ==> v@.contains(i),
            forall|k1: int, k2: int|
                0 <= k1 < k2 < v@.len() ==> rot_pos(
                    from as int,
                    v@[k1] as int,
                    self.players().len() as int,
                ) < rot_pos(from as int, v@[k2] as int, self.players().len() as int),
    {
        let n = self.players.len();
        let mut v: Vec<usize> = Vec::new();
        let mut k: usize = 1;
        while k < n
            invariant
                n == self.players().len(),
                from < n,
                1 <= k <= n,
                forall|j: int|
                    0 <= j < v@.len() ==> v@[j] < n && v@[j] != from && !self.players()[
                        v@[j] as int
                    ].eliminated() && (match only {
                        Some(t) => v@[j] == t,
                        None => true,
                    }) && rot_pos(from as int, v@[j] as int, n as int) < k,
                forall|i: usize|
                    i < n && i != from && !self.players()[i as int].eliminated() && (match only {
                        Some(t) => i == t,
                        None => true,
                    }) && rot_pos(from as int, i as int, n as int) < k ==> v@.contains(i),
                forall|k1: int, k2: int|
                    0 <= k1 < k2 < v@.len() ==> rot_pos(from as int, v@[k1] as int, n as int)
                        < rot_pos(from as int, v@[k2] as int, n as int),
            decreases n - k,
        {
            let idx = if k >= n - from {
                k - (n - from)
            } else {
                from + k
            };
            assert(rot_pos(from as int, idx as int, n as int) == k);
            assert(forall|i: usize|
                i < n && i != from && rot_pos(from as int, i as int, n as int) == k ==> i == idx);
            let admit_seat = !self.players[idx].is_eliminated() && (match only {
                Some(t) => idx == t,
                None => true,
            });
            let ghost prior = v@;
            if admit_seat {
                v.push(idx);
                proof {
                    assert(v@[v@.len() - 1] == idx);
                    assert(v@.contains(idx));
                    assert forall|i: usize| prior.contains(i) implies v@.contains(i) by {
                        let j = choose|j: int| 0 <= j < prior.len() && prior[j] == i;
                        assert(v@[j] == i);
                    }
                }
            }
            proof {
                assert forall|i: usize|
                    i < n && i != from && !self.players()[i as int].eliminated() && (match only {
                        Some(t) => i == t,
                        None => true,
                    }) && rot_pos(from as int, i as int, n as int) < k + 1 implies v@.contains(
                    i,
                ) by {
                    if rot_pos(from as int, i as int, n as int) == k {
                        assert(i == idx);
                    } else {
                        assert(prior.contains(i));
                    }
                }
            }
            k += 1;
        }
        v
    }

    /// Move the rotation to the next living player after the current one;
    /// leave it unchanged when nobody is alive.
    fn advance_current(&mut self)
        requires
            old(self).wf(),
            old(self).players().len() > 0,
        ensures
            final(self).players() == old(self).players(),
            final(self).deck() == old(self).deck(),
            final(self).turn() == old(self).turn(),
            final(self).any_can_block_spec() == old(self).any_can_block_spec(),
            Game::rotation_advanced(*old(self), *final(self)),
            final(self).wf(),
    {
        let n = self.players.len();
        let cur = self.current;
        let mut k: usize = 1;
        while k < n
            invariant
                *self == *old(self),
                n == self.players().len(),
                n > 0,
                cur == self.current(),
                cur < n,
                1 <= k <= n,
                forall|i: int|
                    0 <= i < n && rot_pos(cur as int, i, n as int) < k ==> self.players()[
                        i
                    ].eliminated(),
            decreases n - k,
        {
            let idx = if k >= n - cur {
                k - (n - cur)
            } else {
                cur + k
            };
            assert(rot_pos(cur as int, idx as int, n as int) == k);
            if !self.players[idx].is_eliminated() {
                self.current = idx;
                proof {
                    assert forall|i: int|
                        0 <= i < n && !self.players()[i].eliminated() implies rot_pos(
                        cur as int,
                        idx as int,
                        n as int,
                    ) <= rot_pos(cur as int, i, n as int) by {
                        if rot_pos(cur as int, i, n as int) < k {
                            assert(self.players()[i].eliminated());
                        }
                    }
                    assert(Game::rotation_advanced(*old(self), *self));
                }
                return ;
            }
            k += 1;
        }
        proof {
            assert forall|i: int|
                0 <= i < n && !self.players()[i].eliminated() implies i == cur as int by {
                assert(rot_pos(cur as int, i, n as int) < n || i == cur as int);
            }
        }
    }

    /// Grant `n` coins from the bank to seat `i`.
    fn grant_coins(&mut self, i: usize, n: u64)
        requires
            old(self).base_wf(),
            i < old(self).players().len(),
            old(self).players()[i as int].coins() + n <= u64::MAX,
        ensures
            final(self).base_wf(),
            final(self).total_cards() == old(self).total_cards(),
            forall|c: Character| final(self).char_cards(c) == old(self).char_cards(c),
            players_same_except(old(self).players(), final(self).players(), i as int, i as int),
            coin_delta_only(
                old(self).players()[i as int],
                final(self).players()[i as int],
                n as int,
            ),
            final(self).deck() == old(self).deck(),
            final(self).turn() == old(self).turn(),
            final(self).current() == old(self).current(),
            final(self).any_can_block_spec() == old(self).any_can_block_spec(),
            final(self).players().len() == old(self).players().len(),
    {
        let p = &mut self.players[i];
        p.add_coins(n);
        proof {
            lemma_held_total_update(old(self).players(), i as int, self.players@[i as int]);
            assert forall|c: Character| self.char_cards(c) == old(self).char_cards(c) by {
                lemma_held_by_players_update(
                    old(self).players(),
                    i as int,
                    self.players@[i as int],
                    c,
                );
            }
        }
    }

    /// Take `n` coins from seat `i`; the caller has checked the balance.
    fn deduct_coins(&mut self, i: usize, n: u64)
        requires
            old(self).base_wf(),
            i < old(self).players().len(),
            old(self).players()[i as int].coins() >= n,
        ensures
            final(self).base_wf(),
            final(self).total_cards() == old(self).total_cards(),
            forall|c: Character| final(self).char_cards(c) == old(self).char_cards(c),
            players_same_except(old(self).players(), final(self).players(), i as int, i as int),
            coin_delta_only(
                old(self).players()[i as int],
                final(self).players()[i as int],
                -(n as int),
            ),
            final(self).deck() == old(self).deck(),
            final(self).turn() == old(self).turn(),
            final(self).current() == old(self).current(),
            final(self).any_can_block_spec() == old(self).any_can_block_spec(),
            final(self).players().len() == old(self).players().len(),
    {
        let p = &mut self.players[i];
        let r = p.remove_coins(n);
        match r {
            Ok(_) => {},
            Err(_) => {},
        }
        proof {
            lemma_held_total_update(old(self).players(), i as int, self.players@[i as int]);
            assert forall|c: Character| self.char_cards(c) == old(self).char_cards(c) by {
                lemma_held_by_players_update(
                    old(self).players(),
                    i as int,
                    self.players@[i as int],
                    c,
                );
            }
        }
    }

    /// Seat `i` gives up one card of character `c` onto the discard pile:
    /// it leaves circulation until a reshuffle.
    fn hand_to_discard(&mut self, i: usize, c: Character)
        requires
            old(self).base_wf(),
            i < old(self).players().len(),
            old(self).players()[i as int].holds_spec(c),
        ensures
            final(self).base_wf(),
            final(self).total_cards() == old(self).total_cards(),
            forall|c: Character| final(self).char_cards(c) == old(self).char_cards(c),
            players_same_except(old(self).players(), final(self).players(), i as int, i as int),
            hand_lost_one(old(self).players()[i as int], final(self).players()[i as int], c),
            final(self).deck().pile() == old(self).deck().pile().push(c),
            forall|d: Character|
                final(self).deck().count_of(d) == old(self).deck().count_of(d),
            final(self).deck().total_physical() == old(self).deck().total_physical() + 1,
            final(self).turn() == old(self).turn(),
            final(self).current() == old(self).current(),
            final(self).any_can_block_spec() == old(self).any_can_block_spec(),
            final(self).players().len() == old(self).players().len(),
    {
        proof {
            lemma_held_total_bounds(self.players@, i as int);
            crate::counting::lemma_count_bounds(self.players@[i as int].hand(), c);
        }
        let p = &mut self.players[i];
        let r = p.lose_influence(c);
        match r {
            Ok(_) => {},
            Err(_) => {},
        }
        proof {
            lemma_held_total_update(old(self).players(), i as int, self.players@[i as int]);
            lemma_held_total_nonneg(self.players@);
        }
        self.deck.discard_card(c);
        proof {
            assert forall|d: Character| self.char_cards(d) == old(self).char_cards(d) by {
                lemma_held_by_players_update(
                    old(self).players(),
                    i as int,
                    self.players@[i as int],
                    d,
                );
            }
        }
    }

    /// Seat `i` reveals one card of character `c`, which goes straight
    /// back into the deck and re-enters circulation.
    fn hand_to_deck(&mut self, i: usize, c: Character)
        requires
            old(self).base_wf(),
            i < old(self).players().len(),
            old(self).players()[i as int].holds_spec(c),
        ensures
            final(self).base_wf(),
            final(self).total_cards() == old(self).total_cards(),
            forall|c: Character| final(self).char_cards(c) == old(self).char_cards(c),
            players_same_except(old(self).players(), final(self).players(), i as int, i as int),
            hand_lost_one(old(self).players()[i as int], final(self).players()[i as int], c),
            final(self).deck().pile() == old(self).deck().pile(),
            final(self).deck().count_of(c) == old(self).deck().count_of(c) + 1,
            forall|d: Character|
                d != c ==> final(self).deck().count_of(d) == old(self).deck().count_of(d),
            final(self).deck().total_physical() == old(self).deck().total_physical() + 1,
            final(self).turn() == old(self).turn(),
            final(self).current() == old(self).current(),
            final(self).any_can_block_spec() == old(self).any_can_block_spec(),
            final(self).players().len() == old(self).players().len(),
    {
        proof {
            lemma_held_total_bounds(self.players@, i as int);
            crate::counting::lemma_count_bounds(self.players@[i as int].hand(), c);
        }
        let p = &mut self.players[i];
        let r = p.lose_influence(c);
        match r {
            Ok(_) => {},
            Err(_) => {},
        }
        proof {
            lemma_held_total_update(old(self).players(), i as int, self.players@[i as int]);
            lemma_held_total_nonneg(self.players@);
        }
        self.deck.return_card(c);
        proof {
            assert forall|d: Character| self.char_cards(d) == old(self).char_cards(d) by {
                lemma_held_by_players_update(
                    old(self).players(),
                    i as int,
                    self.players@[i as int],
                    d,
                );
            }
        }
    }

    /// Draw one card from the deck into the hand of seat `i`.
    fn draw_to_hand(&mut self, i: usize) -> (c: Character)
        requires
            old(self).base_wf(),
            i < old(self).players().len(),
            old(self).deck().total_physical() > 0,
        ensures
            final(self).base_wf(),
            final(self).total_cards() == old(self).total_cards(),
            forall|c: Character| final(self).char_cards(c) == old(self).char_cards(c),
            players_same_except(old(self).players(), final(self).players(), i as int, i as int),
            final(self).players()[i as int].hand() == old(self).players()[i as int].hand().push(c),
            final(self).players()[i as int].coins() == old(self).players()[i as int].coins(),
            final(self).players()[i as int].name_spec() == old(self).players()[
                i as int
            ].name_spec(),
            final(self).deck().total_physical() == old(self).deck().total_physical() - 1,
            final(self).turn() == old(self).turn(),
            final(self).current() == old(self).current(),
            final(self).any_can_block_spec() == old(self).any_can_block_spec(),
            final(self).players().len() == old(self).players().len(),
    {
        proof {
            lemma_held_total_nonneg(self.players@);
        }
        let c = match self.deck.draw_random() {
            Ok(c) => c,
            Err(_) => vstd::pervasive::unreached(),
        };
        let p = &mut self.players[i];
        p.gain_card(c);
        proof {
            lemma_held_total_update(old(self).players(), i as int, self.players@[i as int]);
            assert forall|d: Character| self.char_cards(d) == old(self).char_cards(d) by {
                lemma_held_by_players_update(
                    old(self).players(),
                    i as int,
                    self.players@[i as int],
                    d,
                );
            }
        }
        c
    }

    /// Apply the effect of the surviving, unblocked action of turn `t`.
    /// For income, foreign aid, tax and steal the coins move and the turn
    /// completes; a coup or assassination asks its living target to choose
    /// a card (and fizzles if the target fell to an earlier loss this
    /// turn); an exchange draws two cards and asks the actor what to
    /// return.
    fn resolve_action(&mut self, t: Turn) -> (r: TurnStep)
        requires
            old(self).base_wf(),
            old(self).coin_headroom(),
            old(self).turn() is None,
            old(self).play_wf(t.play),
            (match t.first_loss {
                Some(l) => (l as int) < old(self).players().len(),
                None => true,
            }),
            (match t.second_loss {
                Some(l) => (l as int) < old(self).players().len(),
                None => true,
            }),
            old(self).players().len() > 0,
            t.play.action == Action::Exchange ==> old(self).deck().total_physical() >= 2,
        ensures
            final(self).wf(),
            final(self).total_cards() == old(self).total_cards(),
            forall|c: Character| final(self).char_cards(c) == old(self).char_cards(c),
            final(self).players().len() == old(self).players().len(),
            final(self).any_can_block_spec() == old(self).any_can_block_spec(),
            match t.play.action {
                Action::Income => coin_gain_resolution(*old(self), *final(self), t, r, 1),
                Action::ForeignAid => coin_gain_resolution(*old(self), *final(self), t, r, 2),
                Action::Tax => coin_gain_resolution(*old(self), *final(self), t, r, 3),
                Action::Steal => steal_resolution(*old(self), *final(self), t, r),
                Action::Coup => kill_resolution(*old(self), *final(self), t, r),
                Action::Assassinate => kill_resolution(*old(self), *final(self), t, r),
                Action::Exchange => exchange_resolution(*old(self), *final(self), t, r),
            },
    {
        let a = t.play.actor;
        match t.play.action {
            Action::Income => {
                self.grant_coins(a, 1);
                let o = self.outcome_of(t, true);
                self.advance_current();
                TurnStep::Done(o)
            },
            Action::ForeignAid => {
                self.grant_coins(a, 2);
                let o = self.outcome_of(t, true);
                self.advance_current();
                TurnStep::Done(o)
            },
            Action::Tax => {
                self.grant_coins(a, 3);
                let o = self.outcome_of(t, true);
                self.advance_current();
                TurnStep::Done(o)
            },
            Action::Steal => {
                let tg = match t.play.target {
                    Some(x) => x,
                    None => vstd::pervasive::unreached(),
                };
                let tc = self.players[tg].coin_balance();
                let amt = if tc < 2 {
                    tc
                } else {
                    2
                };
                self.deduct_coins(tg, amt);
                self.grant_coins(a, amt);
                let o = self.outcome_of(t, true);
                self.advance_current();
                TurnStep::Done(o)
            },
            Action::Coup | Action::Assassinate => {
                let tg = match t.play.target {
                    Some(x) => x,
                    None => vstd::pervasive::unreached(),
                };
                if self.players[tg].influence_count() > 0 {
                    self.turn = Some(
                        Turn {
                            play: t.play,
                            phase: Phase::AwaitInfluenceLoss {
                                loser: tg,
                                after: AfterLoss::EndTurn,
                            },
                            challenged: t.challenged,
                            blocked: t.blocked,
                            applied: true,
                            first_loss: t.first_loss,
                            second_loss: t.second_loss,
                        },
                    );
                    TurnStep::AwaitInfluenceLoss { loser: tg }
                } else {
                    let o = self.outcome_of(t, false);
                    self.advance_current();
                    TurnStep::Done(o)
                }
            },
            Action::Exchange => {
                let c1 = self.draw_to_hand(a);
                let c2 = self.draw_to_hand(a);
                self.turn = Some(
                    Turn {
                        play: t.play,
                        phase: Phase::AwaitExchangeReturn,
                        challenged: t.challenged,
                        blocked: t.blocked,
                        applied: false,
                        first_loss: t.first_loss,
                        second_loss: t.second_loss,
                    },
                );
                TurnStep::AwaitExchangeReturn { actor: a }
            },
        }
    }

    /// The validation a proposal must pass, in order; `None` means the
    /// proposal is accepted. Everything is checked before anything is
    /// paid: a failed proposal changes nothing.
    pub open spec fn propose_check(self, actor: usize, action: Action, target: Option<usize>) -> Option<ActionError> {
        let n = self.players().len() as int;
        if self.turn() is Some {
            Some(ActionError::WrongPhase)
        } else if actor as int >= n || actor as int != self.current() {
            Some(ActionError::NotYourTurn)
        } else if self.players()[actor as int].eliminated() {
            Some(ActionError::ActorEliminated)
        } else if needs_target(action) && !(target matches Some(x) && (x as int) < n && x != actor
            && !self.players()[x as int].eliminated()) {
            Some(ActionError::InvalidTarget)
        } else if !needs_target(action) && target is Some {
            Some(ActionError::InvalidTarget)
        } else if self.players()[actor as int].coins() < action_cost(action) {
            Some(ActionError::InsufficientFunds)
        } else {
            None
        }
    }

    /// Propose an action for the player whose turn it is, paying its cost
    /// at once. Income resolves immediately; a coup goes straight to the
    /// target's influence loss; a blockable action opens the counteraction
    /// window; tax and exchange put the actor's character claim up for
    /// challenge. The cost of a coup or an assassination is the price of
    /// the attempt, not of success: it is never refunded, whatever the
    /// windows bring.
    pub fn propose_action(&mut self, actor: usize, action: Action, target: Option<usize>) -> (r:
        Result<TurnStep, ActionError>)
        requires
            old(self).wf(),
            old(self).coin_headroom(),
        ensures
            final(self).wf(),
            final(self).total_cards() == old(self).total_cards(),
            forall|c: Character| final(self).char_cards(c) == old(self).char_cards(c),
            final(self).players().len() == old(self).players().len(),
            final(self).any_can_block_spec() == old(self).any_can_block_spec(),
            match old(self).propose_check(actor, action, target) {
                Some(e) => r == Err::<TurnStep, ActionError>(e) && *final(self) == *old(self),
                None => {
                    let a = actor as int;
                    let n = old(self).players().len() as int;
                    let play = (Play { actor, action, target });
                    &&& (forall|j: int|
                        0 <= j < n && j != a ==> final(self).players()[j] == old(self).players()[j])
                    &&& final(self).players()[a].hand() == old(self).players()[a].hand()
                    &&& final(self).players()[a].name_spec() == old(self).players()[a].name_spec()
                    &&& final(self).players()[a].coins() == old(self).players()[a].coins()
                        - action_cost(action) + (if action == Action::Income {
                        1int
                    } else {
                        0int
                    })
                    &&& final(self).deck() == old(self).deck()
                    &&& (match action {
                        Action::Income => final(self).turn() is None && Game::rotation_advanced(
                            *old(self),
                            *final(self),
                        ) && (r matches Ok(TurnStep::Done(o)) && o == (TurnOutcome {
                            action,
                            actor,
                            target,
                            applied: true,
                            blocked: false,
                            challenged: false,
                            first_loss: None,
                            second_loss: None,
                            any_eliminated: false,
                        })),
                        Action::Coup => target matches Some(tg) && final(self).current() == old(
                            self,
                        ).current() && final(self).turn() == Some(
                            Turn {
                                play,
                                phase: Phase::AwaitInfluenceLoss {
                                    loser: tg,
                                    after: AfterLoss::EndTurn,
                                },
                                challenged: false,
                                blocked: false,
                                applied: true,
                                first_loss: None,
                                second_loss: None,
                            },
                        ) && (r matches Ok(TurnStep::AwaitInfluenceLoss { loser }) && loser == tg),
                        Action::ForeignAid | Action::Steal | Action::Assassinate => {
                            let t0 = (Turn {
                                play,
                                phase: Phase::AwaitCounteraction,
                                challenged: false,
                                blocked: false,
                                applied: false,
                                first_loss: None,
                                second_loss: None,
                            });
                            &&& final(self).current() == old(self).current()
                            &&& final(self).turn() == Some(t0)
                            &&& (r matches Ok(TurnStep::AwaitCounteraction { eligible })
                                && (forall|k: int|
                                0 <= k < eligible@.len() ==> final(self).may_counteract(
                                    t0,
                                    eligible@[k] as int,
                                )) && (forall|i: usize|
                                (i as int) < n && final(self).may_counteract(t0, i as int)
                                    ==> eligible@.contains(i)))
                        },
                        Action::Tax | Action::Exchange => {
                            let cl = requires_character_spec(action)->Some_0;
                            let t0 = (Turn {
                                play,
                                phase: Phase::AwaitChallenge {
                                    claimant: actor,
                                    claimed: cl,
                                    counter: false,
                                },
                                challenged: false,
                                blocked: false,
                                applied: false,
                                first_loss: None,
                                second_loss: None,
                            });
                            &&& final(self).current() == old(self).current()
                            &&& final(self).turn() == Some(t0)
                            &&& (r matches Ok(TurnStep::AwaitChallenge {
                                claimant,
                                claimed,
                                eligible,
                            }) && claimant == actor && claimed == cl && (forall|k: int|
                                0 <= k < eligible@.len() ==> final(self).may_challenge(
                                    a,
                                    eligible@[k] as int,
                                )) && (forall|i: usize|
                                (i as int) < n && final(self).may_challenge(a, i as int)
                                    ==> eligible@.contains(i)))
                        },
                    })
                },
            },
    {
        if self.turn.is_some() {
            return Err(ActionError::WrongPhase);
        }
        let n = self.players.len();
        if actor >= n || actor != self.current {
            return Err(ActionError::NotYourTurn);
        }
        if self.players[actor].is_eliminated() {
            return Err(ActionError::ActorEliminated);
        }
        if takes_target(action) {
            match target {
                Some(x) => {
                    if x >= n || x == actor || self.players[x].is_eliminated() {
                        return Err(ActionError::InvalidTarget);
                    }
                },
                None => {
                    return Err(ActionError::InvalidTarget);
                },
            }
        } else {
            if target.is_some() {
                return Err(ActionError::InvalidTarget);
            }
        }
        let cost = cost_of(action);
        if self.players[actor].coin_balance() < cost {
            return Err(ActionError::InsufficientFunds);
        }
        if cost > 0 {
            self.deduct_coins(actor, cost);
        }
        let play = Play { actor, action, target };
        let t0 = Turn {
            play,
            phase: Phase::AwaitCounteraction,
            challenged: false,
            blocked: false,
            applied: false,
            first_loss: None,
            second_loss: None,
        };
        match action {
            Action::Income | Action::Coup => Ok(self.resolve_action(t0)),
            Action::ForeignAid | Action::Steal | Action::Assassinate => {
                self.turn = Some(t0);
                let only = if action == Action::ForeignAid || self.any_can_block {
                    None
                } else {
                    target
                };
                let eligible = self.responders_from(actor, only);
                Ok(TurnStep::AwaitCounteraction { eligible })
            },
            Action::Tax | Action::Exchange => {
                let cl = match requires_character(action) {
                    Some(c) => c,
                    None => vstd::pervasive::unreached(),
                };
                self.turn = Some(
                    Turn {
                        play,
                        phase: Phase::AwaitChallenge { claimant: actor, claimed: cl, counter: false },
                        challenged: false,
                        blocked: false,
                        applied: false,
                        first_loss: None,
                        second_loss: None,
                    },
                );
                let eligible = self.responders_from(actor, None);
                Ok(TurnStep::AwaitChallenge { claimant: actor, claimed: cl, eligible })
            },
        }
    }

    /// Step the open counteraction window. `None` means every eligible
    /// player passed: the original claim (if the action makes one) goes up
    /// for challenge, else the action — foreign aid — resolves at once.
    /// `Some((i, ch))` means seat `i` claims character `ch` to block: the
    /// counteraction claim itself goes up for challenge.
    pub fn respond_counteraction(&mut self, response: Option<(usize, Character)>) -> (r: Result<
        TurnStep,
        ActionError,
    >)
        requires
            old(self).wf(),
            old(self).coin_headroom(),
        ensures
            final(self).wf(),
            final(self).total_cards() == old(self).total_cards(),
            forall|c: Character| final(self).char_cards(c) == old(self).char_cards(c),
            final(self).players().len() == old(self).players().len(),
            final(self).any_can_block_spec() == old(self).any_can_block_spec(),
            r is Err ==> *final(self) == *old(self),
            !(old(self).turn() matches Some(t) && t.phase == Phase::AwaitCounteraction) ==> r
                == Err::<TurnStep, ActionError>(ActionError::WrongPhase),
            old(self).turn() matches Some(t) ==> t.phase == Phase::AwaitCounteraction
                ==> match response {
                Some((i, ch)) => {
                    if !old(self).may_counteract(t, i as int) {
                        r == Err::<TurnStep, ActionError>(ActionError::NotEligible)
                    } else if !grants_counteraction_spec(
                        ch,
                        counteraction_for_spec(t.play.action),
                    ) {
                        r == Err::<TurnStep, ActionError>(ActionError::InvalidClaim)
                    } else {
                        let t1 = (Turn {
                            play: t.play,
                            phase: Phase::AwaitChallenge { claimant: i, claimed: ch, counter: true },
                            challenged: t.challenged,
                            blocked: t.blocked,
                            applied: t.applied,
                            first_loss: t.first_loss,
                            second_loss: t.second_loss,
                        });
                        &&& final(self).players() == old(self).players()
                        &&& final(self).deck() == old(self).deck()
                        &&& final(self).current() == old(self).current()
                        &&& final(self).turn() == Some(t1)
                        &&& (r matches Ok(TurnStep::AwaitChallenge { claimant, claimed, eligible })
                            && claimant == i && claimed == ch && (forall|k: int|
                            0 <= k < eligible@.len() ==> final(self).may_challenge(
                                i as int,
                                eligible@[k] as int,
                            )) && (forall|j: usize|
                            (j as int) < final(self).players().len() && final(self).may_challenge(
                                i as int,
                                j as int,
                            ) ==> eligible@.contains(j)))
                    }
                },
                None => match requires_character_spec(t.play.action) {
                    Some(cl) => {
                        let t1 = (Turn {
                            play: t.play,
                            phase: Phase::AwaitChallenge {
                                claimant: t.play.actor,
                                claimed: cl,
                                counter: false,
                            },
                            challenged: t.challenged,
                            blocked: t.blocked,
                            applied: t.applied,
                            first_loss: t.first_loss,
                            second_loss: t.second_loss,
                        });
                        &&& final(self).players() == old(self).players()
                        &&& final(self).deck() == old(self).deck()
                        &&& final(self).current() == old(self).current()
                        &&& final(self).turn() == Some(t1)
                        &&& (r matches Ok(TurnStep::AwaitChallenge { claimant, claimed, eligible })
                            && claimant == t.play.actor && claimed == cl && (forall|k: int|
                            0 <= k < eligible@.len() ==> final(self).may_challenge(
                                t.play.actor as int,
                                eligible@[k] as int,
                            )) && (forall|j: usize|
                            (j as int) < final(self).players().len() && final(self).may_challenge(
                                t.play.actor as int,
                                j as int,
                            ) ==> eligible@.contains(j)))
                    },
                    None => (r matches Ok(step) && coin_gain_resolution(
                        *old(self),
                        *final(self),
                        t,
                        step,
                        2,
                    )),
                },
            },
    {
        let t = match self.turn {
            Some(t) => t,
            None => {
                return Err(ActionError::WrongPhase);
            },
        };
        match t.phase {
            Phase::AwaitCounteraction => {},
            _ => {
                return Err(ActionError::WrongPhase);
            },
        }
        match response {
            Some((i, ch)) => {
                let eligible_responder = i < self.players.len() && i != t.play.actor
                    && !self.players[i].is_eliminated() && (t.play.action == Action::ForeignAid
                    || self.any_can_block || (match t.play.target {
                    Some(x) => i == x,
                    None => false,
                }));
                if !eligible_responder {
                    return Err(ActionError::NotEligible);
                }
                if !grants_counteraction(ch, counteraction_for(t.play.action)) {
                    return Err(ActionError::InvalidClaim);
                }
                self.turn = Some(
                    Turn {
                        play: t.play,
                        phase: Phase::AwaitChallenge { claimant: i, claimed: ch, counter: true },
                        challenged: t.challenged,
                        blocked: t.blocked,
                        applied: t.applied,
                        first_loss: t.first_loss,
                        second_loss: t.second_loss,
                    },
                );
                let eligible = self.responders_from(i, None);
                Ok(TurnStep::AwaitChallenge { claimant: i, claimed: ch, eligible })
            },
            None => {
                match requires_character(t.play.action) {
                    Some(cl) => {
                        self.turn = Some(
                            Turn {
                                play: t.play,
                                phase: Phase::AwaitChallenge {
                                    claimant: t.play.actor,
                                    claimed: cl,
                                    counter: false,
                                },
                                challenged: t.challenged,
                                blocked: t.blocked,
                                applied: t.applied,
                                first_loss: t.first_loss,
                                second_loss: t.second_loss,
                            },
                        );
                        let eligible = self.responders_from(t.play.actor, None);
                        Ok(TurnStep::AwaitChallenge { claimant: t.play.actor, claimed: cl, eligible })
                    },
                    None => {
                        self.turn = None;
                        Ok(self.resolve_action(t))
                    },
                }
            },
        }
    }

    /// Step the open challenge window. `None` means nobody challenged: a
    /// standing counteraction blocks the action and ends the turn; an
    /// unchallenged original claim resolves. `Some(ch)` means seat `ch`
    /// challenges the claim on the table. A claimant who truly holds the
    /// claimed character reveals it, returns it to the deck, draws a
    /// replacement — the hand size is unchanged — and the challenger must
    /// choose a card to lose; a bluffing claimant must choose a card to
    /// lose and the claim is voided. Coins paid at proposal stay paid.
    pub fn respond_challenge(&mut self, challenger: Option<usize>) -> (r: Result<
        TurnStep,
        ActionError,
    >)
        requires
            old(self).wf(),
            old(self).coin_headroom(),
        ensures
            final(self).wf(),
            final(self).total_cards() == old(self).total_cards(),
            forall|c: Character| final(self).char_cards(c) == old(self).char_cards(c),
            final(self).players().len() == old(self).players().len(),
            final(self).any_can_block_spec() == old(self).any_can_block_spec(),
            r is Err ==> *final(self) == *old(self),
            !(old(self).turn() matches Some(t) && t.phase matches Phase::AwaitChallenge { .. })
                ==> r == Err::<TurnStep, ActionError>(ActionError::WrongPhase),
            old(self).turn() matches Some(t) ==> t.phase matches Phase::AwaitChallenge {
                claimant,
                claimed,
                counter,
            } ==> match challenger {
                None => {
                    if counter {
                        let t1 = (Turn {
                            play: t.play,
                            phase: t.phase,
                            challenged: t.challenged,
                            blocked: true,
                            applied: t.applied,
                            first_loss: t.first_loss,
                            second_loss: t.second_loss,
                        });
                        &&& final(self).players() == old(self).players()
                        &&& final(self).deck() == old(self).deck()
                        &&& (r matches Ok(TurnStep::Done(o)) && turn_finished(
                            *old(self),
                            *final(self),
                            t1,
                            o,
                            false,
                        ))
                    } else if t.play.action == Action::Exchange && old(
                        self,
                    ).deck().total_physical() < 2 {
                        r == Err::<TurnStep, ActionError>(ActionError::DeckExhausted)
                    } else {
                        r matches Ok(step) && (match t.play.action {
                            Action::Tax => coin_gain_resolution(
                                *old(self),
                                *final(self),
                                t,
                                step,
                                3,
                            ),
                            Action::Steal => steal_resolution(*old(self), *final(self), t, step),
                            Action::Assassinate => kill_resolution(
                                *old(self),
                                *final(self),
                                t,
                                step,
                            ),
                            Action::Exchange => exchange_resolution(
                                *old(self),
                                *final(self),
                                t,
                                step,
                            ),
                            _ => true,
                        })
                    }
                },
                Some(ch) => {
                    if !old(self).may_challenge(claimant as int, ch as int) {
                        r == Err::<TurnStep, ActionError>(ActionError::NotEligible)
                    } else if old(self).players()[claimant as int].holds_spec(claimed) {
                        let t1 = (Turn {
                            play: t.play,
                            phase: Phase::AwaitInfluenceLoss {
                                loser: ch,
                                after: if counter {
                                    AfterLoss::EndTurn
                                } else {
                                    AfterLoss::ResolveAction
                                },
                            },
                            challenged: true,
                            blocked: counter,
                            applied: t.applied,
                            first_loss: t.first_loss,
                            second_loss: t.second_loss,
                        });
                        &&& players_same_except(
                            old(self).players(),
                            final(self).players(),
                            claimant as int,
                            claimant as int,
                        )
                        &&& final(self).players()[claimant as int].hand().len() == old(
                            self,
                        ).players()[claimant as int].hand().len()
                        &&& final(self).players()[claimant as int].coins() == old(self).players()[
                            claimant as int
                        ].coins()
                        &&& final(self).players()[claimant as int].name_spec() == old(
                            self,
                        ).players()[claimant as int].name_spec()
                        &&& final(self).deck().total_physical() == old(self).deck().total_physical()
                        &&& final(self).current() == old(self).current()
                        &&& final(self).turn() == Some(t1)
                        &&& (r matches Ok(TurnStep::AwaitInfluenceLoss { loser }) && loser == ch)
                    } else {
                        let t1 = (Turn {
                            play: t.play,
                            phase: Phase::AwaitInfluenceLoss {
                                loser: claimant,
                                after: if counter {
                                    AfterLoss::ResolveAction
                                } else {
                                    AfterLoss::EndTurn
                                },
                            },
                            challenged: true,
                            blocked: false,
                            applied: t.applied,
                            first_loss: t.first_loss,
                            second_loss: t.second_loss,
                        });
                        &&& final(self).players() == old(self).players()
                        &&& final(self).deck() == old(self).deck()
                        &&& final(self).current() == old(self).current()
                        &&& final(self).turn() == Some(t1)
                        &&& (r matches Ok(TurnStep::AwaitInfluenceLoss { loser }) && loser
                            == claimant)
                    }
                },
            },
    {
        let t = match self.turn {
            Some(t) => t,
            None => {
                return Err(ActionError::WrongPhase);
            },
        };
        let (claimant, claimed, counter) = match t.phase {
            Phase::AwaitChallenge { claimant, claimed, counter } => (claimant, claimed, counter),
            _ => {
                return Err(ActionError::WrongPhase);
            },
        };
        match challenger {
            None => {
                if counter {
                    self.turn = None;
                    let t1 = Turn {
                        play: t.play,
                        phase: t.phase,
                        challenged: t.challenged,
                        blocked: true,
                        applied: t.applied,
                        first_loss: t.first_loss,
                        second_loss: t.second_loss,
                    };
                    let o = self.outcome_of(t1, false);
                    self.advance_current();
                    Ok(TurnStep::Done(o))
                } else {
                    if t.play.action == Action::Exchange {
                        let pool = self.deck.total_count() + self.deck.discard_len();
                        if pool < 2 {
                            return Err(ActionError::DeckExhausted);
                        }
                    }
                    self.turn = None;
                    Ok(self.resolve_action(t))
                }
            },
            Some(ch) => {
                let eligible_challenger = ch < self.players.len() && ch != claimant
                    && !self.players[ch].is_eliminated();
                if !eligible_challenger {
                    return Err(ActionError::NotEligible);
                }
                if self.players[claimant].holds(claimed) {
                    self.hand_to_deck(claimant, claimed);
                    let _replacement = self.draw_to_hand(claimant);
                    self.turn = Some(
                        Turn {
                            play: t.play,
                            phase: Phase::AwaitInfluenceLoss {
                                loser: ch,
                                after: if counter {
                                    AfterLoss::EndTurn
                                } else {
                                    AfterLoss::ResolveAction
                                },
                            },
                            challenged: true,
                            blocked: counter,
                            applied: t.applied,
                            first_loss: t.first_loss,
                            second_loss: t.second_loss,
                        },
                    );
                    Ok(TurnStep::AwaitInfluenceLoss { loser: ch })
                } else {
                    self.turn = Some(
                        Turn {
                            play: t.play,
                            phase: Phase::AwaitInfluenceLoss {
                                loser: claimant,
                                after: if counter {
                                    AfterLoss::ResolveAction
                                } else {
                                    AfterLoss::EndTurn
                                },
                            },
                            challenged: true,
                            blocked: false,
                            applied: t.applied,
                            first_loss: t.first_loss,
                            second_loss: t.second_loss,
                        },
                    );
                    Ok(TurnStep::AwaitInfluenceLoss { loser: claimant })
                }
            },
        }
    }

    /// The pending influence loss is taken: the named player gives up one
    /// held card of character `card`, which goes to the discard pile.
    /// Then the turn either ends or — after a challenge that left the
    /// action standing — the action resolves. An assassination whose
    /// target already fell to the challenge this turn fizzles.
    pub fn choose_influence_loss(&mut self, card: Character) -> (r: Result<TurnStep, ActionError>)
        requires
            old(self).wf(),
            old(self).coin_headroom(),
        ensures
            final(self).wf(),
            final(self).total_cards() == old(self).total_cards(),
            forall|c: Character| final(self).char_cards(c) == old(self).char_cards(c),
            final(self).players().len() == old(self).players().len(),
            final(self).any_can_block_spec() == old(self).any_can_block_spec(),
            r is Err ==> *final(self) == *old(self),
            !(old(self).turn() matches Some(t) && t.phase matches Phase::AwaitInfluenceLoss { .. })
                ==> r == Err::<TurnStep, ActionError>(ActionError::WrongPhase),
            old(self).turn() matches Some(t) ==> t.phase matches Phase::AwaitInfluenceLoss {
                loser,
                after,
            } ==> {
                let n = old(self).players().len() as int;
                let l = loser as int;
                let a = t.play.actor as int;
                let t1 = with_loss(t, loser);
                if !old(self).players()[l].holds_spec(card) {
                    r == Err::<TurnStep, ActionError>(ActionError::CardNotHeld)
                } else if after == AfterLoss::ResolveAction && t.play.action == Action::Exchange
                    && old(self).deck().total_physical() == 0 {
                    r == Err::<TurnStep, ActionError>(ActionError::DeckExhausted)
                } else {
                    &&& hand_lost_one(old(self).players()[l], final(self).players()[l], card) || (
                    t.play.action == Action::Steal && after == AfterLoss::ResolveAction)
                    &&& (match after {
                        AfterLoss::EndTurn => {
                            &&& players_same_except(old(self).players(), final(self).players(), l, l)
                            &&& hand_lost_one(old(self).players()[l], final(self).players()[l], card)
                            &&& final(self).deck().pile() == old(self).deck().pile().push(card)
                            &&& (forall|d: Character|
                                final(self).deck().count_of(d) == old(self).deck().count_of(d))
                            &&& (r matches Ok(TurnStep::Done(o)) && turn_finished(
                                *old(self),
                                *final(self),
                                t1,
                                o,
                                t.applied,
                            ))
                        },
                        AfterLoss::ResolveAction => match t.play.action {
                            Action::ForeignAid | Action::Tax => {
                                let d: int = if t.play.action == Action::ForeignAid {
                                    2
                                } else {
                                    3
                                };
                                &&& players_same_except(old(self).players(), final(self).players(), l, a)
                                &&& hand_lost_one(old(self).players()[l], final(self).players()[l], card)
                                &&& coin_delta_only(
                                    old(self).players()[a],
                                    final(self).players()[a],
                                    d,
                                )
                                &&& final(self).deck().pile() == old(self).deck().pile().push(card)
                                &&& (r matches Ok(TurnStep::Done(o)) && turn_finished(
                                    *old(self),
                                    *final(self),
                                    t1,
                                    o,
                                    true,
                                ))
                            },
                            Action::Steal => t.play.target matches Some(tgu) && {
                                let tg = tgu as int;
                                let amt = steal_amount(old(self).players()[tg].coins());
                                &&& (forall|j: int|
                                    0 <= j < n && j != l && j != a && j != tg
                                        ==> final(self).players()[j] == old(self).players()[j])
                                &&& coin_delta_only(
                                    old(self).players()[a],
                                    final(self).players()[a],
                                    amt,
                                )
                                &&& (l == tg ==> hand_loss_with_coins(
                                    old(self).players()[tg],
                                    final(self).players()[tg],
                                    card,
                                    -amt,
                                ))
                                &&& (l != tg ==> hand_lost_one(
                                    old(self).players()[l],
                                    final(self).players()[l],
                                    card,
                                ) && coin_delta_only(
                                    old(self).players()[tg],
                                    final(self).players()[tg],
                                    -amt,
                                ))
                                &&& final(self).players()[tg].coins() >= 0
                                &&& final(self).deck().pile() == old(self).deck().pile().push(card)
                                &&& (r matches Ok(TurnStep::Done(o)) && turn_finished(
                                    *old(self),
                                    *final(self),
                                    t1,
                                    o,
                                    true,
                                ))
                            },
                            Action::Assassinate => t.play.target matches Some(tgu) && {
                                let tg = tgu as int;
                                let target_alive_after = if l == tg {
                                    old(self).players()[tg].hand().len() > 1
                                } else {
                                    old(self).players()[tg].hand().len() > 0
                                };
                                &&& players_same_except(old(self).players(), final(self).players(), l, l)
                                &&& hand_lost_one(old(self).players()[l], final(self).players()[l], card)
                                &&& final(self).deck().pile() == old(self).deck().pile().push(card)
                                &&& (if target_alive_after {
                                    &&& final(self).current() == old(self).current()
                                    &&& final(self).turn() == Some(
                                        Turn {
                                            play: t.play,
                                            phase: Phase::AwaitInfluenceLoss {
                                                loser: tgu,
                                                after: AfterLoss::EndTurn,
                                            },
                                            challenged: t.challenged,
                                            blocked: t.blocked,
                                            applied: true,
                                            first_loss: t1.first_loss,
                                            second_loss: t1.second_loss,
                                        },
                                    )
                                    &&& (r matches Ok(TurnStep::AwaitInfluenceLoss { loser })
                                        && loser == tgu)
                                } else {
                                    r matches Ok(TurnStep::Done(o)) && turn_finished(
                                        *old(self),
                                        *final(self),
                                        t1,
                                        o,
                                        false,
                                    )
                                })
                            },
                            Action::Exchange => {
                                &&& players_same_except(old(self).players(), final(self).players(), l, a)
                                &&& hand_lost_one(old(self).players()[l], final(self).players()[l], card)
                                &&& final(self).players()[a].hand().len() == old(self).players()[
                                    a
                                ].hand().len() + 2
                                &&& final(self).players()[a].coins() == old(self).players()[
                                    a
                                ].coins()
                                &&& final(self).deck().total_physical() == old(
                                    self,
                                ).deck().total_physical() - 1
                                &&& final(self).current() == old(self).current()
                                &&& final(self).turn() == Some(
                                    Turn {
                                        play: t.play,
                                        phase: Phase::AwaitExchangeReturn,
                                        challenged: t.challenged,
                                        blocked: t.blocked,
                                        applied: false,
                                        first_loss: t1.first_loss,
                                        second_loss: t1.second_loss,
                                    },
                                )
                                &&& (r matches Ok(TurnStep::AwaitExchangeReturn { actor }) && actor
                                    == t.play.actor)
                            },
                            _ => true,
                        },
                    })
                }
            },
    {
        let t = match self.turn {
            Some(t) => t,
            None => {
                return Err(ActionError::WrongPhase);
            },
        };
        let (loser, after) = match t.phase {
            Phase::AwaitInfluenceLoss { loser, after } => (loser, after),
            _ => {
                return Err(ActionError::WrongPhase);
            },
        };
        if !self.players[loser].holds(card) {
            return Err(ActionError::CardNotHeld);
        }
        if after == AfterLoss::ResolveAction && t.play.action == Action::Exchange {
            let pool = self.deck.total_count() + self.deck.discard_len();
            if pool == 0 {
                return Err(ActionError::DeckExhausted);
            }
        }
        self.hand_to_discard(loser, card);
        let t1 = record_loss(t, loser);
        match after {
            AfterLoss::EndTurn => {
                self.turn = None;
                let o = self.outcome_of(t1, t.applied);
                self.advance_current();
                Ok(TurnStep::Done(o))
            },
            AfterLoss::ResolveAction => {
                self.turn = None;
                Ok(self.resolve_action(t1))
            },
        }
    }

    /// The actor returns two of the held cards to the deck, completing an
    /// exchange. Fails with `CardNotHeld`, changing nothing, unless both
    /// cards (two copies, if the same character is named twice) are held.
    pub fn choose_exchange_return(&mut self, first: Character, second: Character) -> (r: Result<
        TurnStep,
        ActionError,
    >)
        requires
            old(self).wf(),
            old(self).coin_headroom(),
        ensures
            final(self).wf(),
            final(self).total_cards() == old(self).total_cards(),
            forall|c: Character| final(self).char_cards(c) == old(self).char_cards(c),
            final(self).players().len() == old(self).players().len(),
            final(self).any_can_block_spec() == old(self).any_can_block_spec(),
            r is Err ==> *final(self) == *old(self),
            !(old(self).turn() matches Some(t) && t.phase == Phase::AwaitExchangeReturn) ==> r
                == Err::<TurnStep, ActionError>(ActionError::WrongPhase),
            old(self).turn() matches Some(t) ==> t.phase == Phase::AwaitExchangeReturn ==> {
                let a = t.play.actor as int;
                if !holds_two(old(self).players()[a], first, second) {
                    r == Err::<TurnStep, ActionError>(ActionError::CardNotHeld)
                } else {
                    &&& players_same_except(old(self).players(), final(self).players(), a, a)
                    &&& final(self).players()[a].hand().len() == old(self).players()[a].hand().len()
                        - 2
                    &&& final(self).players()[a].coins() == old(self).players()[a].coins()
                    &&& final(self).players()[a].name_spec() == old(self).players()[a].name_spec()
                    &&& (forall|d: Character|
                        count_of_char(final(self).players()[a].hand(), d) == count_of_char(
                            old(self).players()[a].hand(),
                            d,
                        ) - (if d == first {
                            1int
                        } else {
                            0int
                        }) - (if d == second {
                            1int
                        } else {
                            0int
                        }))
                    &&& final(self).deck().pile() == old(self).deck().pile()
                    &&& final(self).deck().total_physical() == old(self).deck().total_physical()
                        + 2
                    &&& (r matches Ok(TurnStep::Done(o)) && turn_finished(
                        *old(self),
                        *final(self),
                        t,
                        o,
                        true,
                    ))
                }
            },
    {
        let t = match self.turn {
            Some(t) => t,
            None => {
                return Err(ActionError::WrongPhase);
            },
        };
        match t.phase {
            Phase::AwaitExchangeReturn => {},
            _ => {
                return Err(ActionError::WrongPhase);
            },
        }
        let a = t.play.actor;
        let both_held = if first == second {
            self.players[a].count_of(first) >= 2
        } else {
            self.players[a].holds(first) && self.players[a].holds(second)
        };
        if !both_held {
            return Err(ActionError::CardNotHeld);
        }
        self.hand_to_deck(a, first);
        self.hand_to_deck(a, second);
        self.turn = None;
        let o = self.outcome_of(t, true);
        self.advance_current();
        Ok(TurnStep::Done(o))
    }

    /// The structured outcome of turn `t` with the given applied flag.
    fn outcome_of(&self, t: Turn, applied: bool) -> (o: TurnOutcome)
        requires
            match t.first_loss {
                Some(l) => (l as int) < self.players().len(),
                None => true,
            },
            match t.second_loss {
                Some(l) => (l as int) < self.players().len(),
                None => true,
            },
        ensures
            o == (TurnOutcome {
                action: t.play.action,
                actor: t.play.actor,
                target: t.play.target,
                applied,
                blocked: t.blocked,
                challenged: t.challenged,
                first_loss: t.first_loss,
                second_loss: t.second_loss,
                any_eliminated: loss_eliminated(self.players(), t.first_loss) || loss_eliminated(
                    self.players(),
                    t.second_loss,
                ),
            }),
    {
        let first_gone = match t.first_loss {
            Some(l) => self.players[l].is_eliminated(),
            None => false,
        };
        let second_gone = match t.second_loss {
            Some(l) => self.players[l].is_eliminated(),
            None => false,
        };
        TurnOutcome {
            action: t.play.action,
            actor: t.play.actor,
            target: t.play.target,
            applied,
            blocked: t.blocked,
            challenged: t.challenged,
            first_loss: t.first_loss,
            second_loss: t.second_loss,
            any_eliminated: first_gone || second_gone,
        }
    }
}

/// Whether an action is aimed at a target player.
fn takes_target(a: Action) -> (r: bool)
    ensures
        r == needs_target(a),
{
    match a {
        Action::Coup | Action::Assassinate | Action::Steal => true,
        _ => false,
    }
}

/// The upfront cost of an action.
fn cost_of(a: Action) -> (r: u64)
    ensures
        r == action_cost(a),
{
    match a {
        Action::Coup => 7,
        Action::Assassinate => 3,
        _ => 0,
    }
}

/// Turn `t` with one more influence loss, by `loser`, recorded.
pub open spec fn with_loss(t: Turn, loser: usize) -> Turn {
    if t.first_loss is None {
        Turn {
            play: t.play,
            phase: t.phase,
            challenged: t.challenged,
            blocked: t.blocked,
            applied: t.applied,
            first_loss: Some(loser),
            second_loss: t.second_loss,
        }
    } else {
        Turn {
            play: t.play,
            phase: t.phase,
            challenged: t.challenged,
            blocked: t.blocked,
            applied: t.applied,
            first_loss: t.first_loss,
            second_loss: Some(loser),
        }
    }
}

/// Record an influence loss by `loser` on turn `t`.
fn record_loss(t: Turn, loser: usize) -> (t1: Turn)
    ensures
        t1 == with_loss(t, loser),
{
    if t.first_loss.is_none() {
        Turn {
            play: t.play,
            phase: t.phase,
            challenged: t.challenged,
            blocked: t.blocked,
            applied: t.applied,
            first_loss: Some(loser),
            second_loss: t.second_loss,
        }
    } else {
        Turn {
            play: t.play,
            phase: t.phase,
            challenged: t.challenged,
            blocked: t.blocked,
            applied: t.applied,
            first_loss: t.first_loss,
            second_loss: Some(loser),
        }
    }
}

/// One card of character `c` left the hand and the coin balance moved by
/// `d`: a steal target who also lost the challenge this turn.
pub open spec fn hand_loss_with_coins(pre: Player, post: Player, c: Character, d: int) -> bool {
    &&& post.hand().len() == pre.hand().len() - 1
    &&& count_of_char(post.hand(), c) == count_of_char(pre.hand(), c) - 1
    &&& (forall|e: Character| e != c ==> count_of_char(post.hand(), e) == count_of_char(
        pre.hand(),
        e,
    ))
    &&& post.coins() == pre.coins() + d
    &&& post.name_spec() == pre.name_spec()
}

/// Whether the player can give up these two cards at once.
pub open spec fn holds_two(p: Player, c1: Character, c2: Character) -> bool {
    if c1 == c2 {
        count_of_char(p.hand(), c1) >= 2
    } else {
        p.holds_spec(c1) && p.holds_spec(c2)
    }
}

/// Whether a recorded influence loss left its player with no cards, in
/// the given player state.
pub open spec fn loss_eliminated(ps: Seq<Player>, loss: Option<usize>) -> bool {
    match loss {
        Some(l) => ps[l as int].eliminated(),
        None => false,
    }
}

/// The turn is over: the pending turn is cleared, the rotation moved on,
/// and the outcome `o` reports the play with the given applied flag.
pub open spec fn turn_finished(pre: Game, post: Game, t: Turn, o: TurnOutcome, applied: bool) -> bool {
    &&& post.turn() is None
    &&& Game::rotation_advanced(pre, post)
    &&& o == (TurnOutcome {
        action: t.play.action,
        actor: t.play.actor,
        target: t.play.target,
        applied,
        blocked: t.blocked,
        challenged: t.challenged,
        first_loss: t.first_loss,
        second_loss: t.second_loss,
        any_eliminated: loss_eliminated(post.players(), t.first_loss) || loss_eliminated(
            post.players(),
            t.second_loss,
        ),
    })
}

/// Resolution of a bank-coin action: the actor gains `d` coins, nothing
/// else moves, and the turn completes with the effect applied.
pub open spec fn coin_gain_resolution(pre: Game, post: Game, t: Turn, r: TurnStep, d: int) -> bool {
    let a = t.play.actor as int;
    &&& players_same_except(pre.players(), post.players(), a, a)
    &&& coin_delta_only(pre.players()[a], post.players()[a], d)
    &&& post.deck() == pre.deck()
    &&& (r matches TurnStep::Done(o) && turn_finished(pre, post, t, o, true))
}

/// Resolution of a steal: the capped amount moves from target to actor,
/// and the turn completes with the effect applied. The cap means the
/// target is never driven below zero.
pub open spec fn steal_resolution(pre: Game, post: Game, t: Turn, r: TurnStep) -> bool {
    &&& t.play.target matches Some(tgu) && {
        let a = t.play.actor as int;
        let tg = tgu as int;
        let amt = steal_amount(pre.players()[tg].coins());
        &&& players_same_except(pre.players(), post.players(), a, tg)
        &&& coin_delta_only(pre.players()[a], post.players()[a], amt)
        &&& coin_delta_only(pre.players()[tg], post.players()[tg], -amt)
        &&& post.players()[tg].coins() >= 0
        &&& post.deck() == pre.deck()
        &&& (r matches TurnStep::Done(o) && turn_finished(pre, post, t, o, true))
    }
}

/// Resolution of a coup or an assassination: a living target must choose
/// one card to give up (the loss itself is the next step); against a
/// target already eliminated this turn the effect fizzles and the turn
/// completes unapplied.
pub open spec fn kill_resolution(pre: Game, post: Game, t: Turn, r: TurnStep) -> bool {
    &&& t.play.target matches Some(tgu) && {
        let tg = tgu as int;
        if !pre.players()[tg].eliminated() {
            &&& post.players() == pre.players()
            &&& post.deck() == pre.deck()
            &&& post.current() == pre.current()
            &&& post.turn() == Some(
                Turn {
                    play: t.play,
                    phase: Phase::AwaitInfluenceLoss { loser: tgu, after: AfterLoss::EndTurn },
                    challenged: t.challenged,
                    blocked: t.blocked,
                    applied: true,
                    first_loss: t.first_loss,
                    second_loss: t.second_loss,
                },
            )
            &&& (r matches TurnStep::AwaitInfluenceLoss { loser } && loser == tgu)
        } else {
            &&& post.players() == pre.players()
            &&& post.deck() == pre.deck()
            &&& (r matches TurnStep::Done(o) && turn_finished(pre, post, t, o, false))
        }
    }
}

/// Resolution of an exchange: the actor draws two cards and must now
/// choose two to return; the turn is not over yet.
pub open spec fn exchange_resolution(pre: Game, post: Game, t: Turn, r: TurnStep) -> bool {
    let a = t.play.actor as int;
    &&& players_same_except(pre.players(), post.players(), a, a)
    &&& post.players()[a].hand().len() == pre.players()[a].hand().len() + 2
    &&& post.players()[a].coins() == pre.players()[a].coins()
    &&& post.players()[a].name_spec() == pre.players()[a].name_spec()
    &&& post.deck().total_physical() == pre.deck().total_physical() - 2
    &&& post.current() == pre.current()
    &&& post.turn() == Some(
        Turn {
            play: t.play,
            phase: Phase::AwaitExchangeReturn,
            challenged: t.challenged,
            blocked: t.blocked,
            applied: false,
            first_loss: t.first_loss,
            second_loss: t.second_loss,
        },
    )
    &&& (r matches TurnStep::AwaitExchangeReturn { actor } && actor == t.play.actor)
}

/// Cards of character `c` held by the players together.
pub open spec fn held_by_players(ps: Seq<Player>, c: Character) -> int
    decreases ps.len(),
{
    if ps.len() == 0 {
        0
    } else {
        held_by_players(ps.drop_last(), c) + count_of_char(ps.last().hand(), c)
    }
}

/// Replacing one player changes a character's held count by that
/// player's difference.
pub proof fn lemma_held_by_players_update(ps: Seq<Player>, i: int, p: Player, c: Character)
    requires
        0 <= i < ps.len(),
    ensures
        held_by_players(ps.update(i, p), c) == held_by_players(ps, c) - count_of_char(
            ps[i].hand(),
            c,
        ) + count_of_char(p.hand(), c),
    decreases ps.len(),
{
    if i == ps.len() - 1 {
        assert(ps.update(i, p).drop_last() =~= ps.drop_last());
    } else {
        assert(ps.update(i, p).drop_last() =~= ps.drop_last().update(i, p));
        lemma_held_by_players_update(ps.drop_last(), i, p, c);
    }
}

/// Seating one more player adds that player's cards of `c`.
pub proof fn lemma_held_by_players_push(ps: Seq<Player>, p: Player, c: Character)
    ensures
        held_by_players(ps.push(p), c) == held_by_players(ps, c) + count_of_char(p.hand(), c),
{
    assert(ps.push(p).drop_last() =~= ps);
}

} // verus!
