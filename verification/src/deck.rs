//! The shared card pool: a counted multiset of character cards plus a
//! discard pile, with weighted random draw and reshuffle-on-exhaustion.
//!
//! A draw is uniform over the remaining physical cards, not over distinct
//! characters: a character with three cards left is three times as likely
//! as one with one card left. The draw picks an index below the number of
//! remaining cards and `card_at` maps that index to a character, giving
//! each character exactly as many indices as it has cards.

use rand::Rng;
use vstd::pervasive::VecAdditionalExecFns;
use vstd::prelude::*;

use crate::catalog::Character;
use crate::counting::count_of_char;
use crate::error::ActionError;

verus! {

/// Upper bound on the physical cards one deck manages; keeps all count
/// arithmetic far from machine limits.
pub const DECK_CAP: usize = 0xFFFF;

/// The deck's injectable source of draw indices.
///
/// A scripted source hands out its queued values first (reduced modulo the
/// number of remaining cards), which makes draws deterministic for
/// replay; once the queue is spent — or for an unscripted source — each
/// index comes from the thread-local random generator.
pub struct DrawSource {
    script: Vec<usize>,
    next: usize,
}

/// Relies on `rand::Rng::gen_range` on the thread-local generator: returns
/// a value sampled uniformly from `0 .. n`. It panics only on an empty
/// range, which `n > 0` rules out.
#[verifier::external_body]
fn random_below(n: usize) -> (r: usize)
    requires
        n > 0,
    ensures
        r < n,
{
    rand::thread_rng().gen_range(0..n)
}

impl DrawSource {
    /// The scripted values not yet handed out.
    pub closed spec fn remaining(self) -> Seq<usize> {
        self.script@.subrange(self.next as int, self.script@.len() as int)
    }

    pub closed spec fn wf(self) -> bool {
        self.next <= self.script@.len()
    }

    /// A source that draws from the thread-local random generator.
    pub fn random() -> (s: DrawSource)
        ensures
            s.wf(),
            s.remaining() == Seq::<usize>::empty(),
    {
        let s = DrawSource { script: Vec::new(), next: 0 };
        proof {
            assert(s.remaining() =~= Seq::<usize>::empty());
        }
        s
    }

    /// A source that hands out the given values in order, then falls back
    /// to the random generator.
    pub fn scripted(script: Vec<usize>) -> (s: DrawSource)
        ensures
            s.wf(),
            s.remaining() == script@,
    {
        let s = DrawSource { script, next: 0 };
        proof {
            assert(s.remaining() =~= s.script@);
        }
        s
    }

    /// The next draw index, below `n`: the head of the script reduced
    /// modulo `n` while the script lasts, a fresh random value after.
    fn next_below(&mut self, n: usize) -> (r: usize)
        requires
            n > 0,
            old(self).wf(),
        ensures
            final(self).wf(),
            r < n,
            old(self).remaining().len() > 0 ==> r == old(self).remaining()[0] as int % (n as int)
                && final(self).remaining() == old(self).remaining().subrange(
                1,
                old(self).remaining().len() as int,
            ),
            old(self).remaining().len() == 0 ==> *final(self) == *old(self),
    {
        if self.next < self.script.len() {
            let v = self.script[self.next];
            self.next = self.next + 1;
            proof {
                assert(final(self).remaining() =~= old(self).remaining().subrange(
                    1,
                    old(self).remaining().len() as int,
                ));
            }
            v % n
        } else {
            random_below(n)
        }
    }
}

/// The deck: per-character counts of the cards still in it, the discard
/// pile, and the source of draw indices.
pub struct Deck {
    counts: Vec<usize>,
    discard: Vec<Character>,
    source: DrawSource,
}

impl Deck {
    /// How many cards of character `c` the deck itself still holds.
    pub closed spec fn count_of(self, c: Character) -> int {
        self.counts@[c.index_spec()] as int
    }

    /// The discard pile, oldest first. Order carries no meaning; only
    /// multiplicity matters, and a reshuffle preserves it.
    pub closed spec fn pile(self) -> Seq<Character> {
        self.discard@
    }

    /// The scripted draw indices not yet consumed.
    pub closed spec fn source_remaining(self) -> Seq<usize> {
        self.source.remaining()
    }

    /// Cards remaining in the deck proper.
    pub open spec fn deck_total(self) -> int {
        self.count_of(Character::Duke) + self.count_of(Character::Assassin) + self.count_of(
            Character::Ambassador,
        ) + self.count_of(Character::Captain) + self.count_of(Character::Contessa)
    }

    /// Cards of character `c` in circulation here: in the deck or on the
    /// discard pile.
    pub open spec fn char_total(self, c: Character) -> int {
        self.count_of(c) + count_of_char(self.pile(), c)
    }

    /// All physical cards the deck manages: deck proper plus discard pile.
    pub open spec fn total_physical(self) -> int {
        self.deck_total() + self.pile().len()
    }

    /// Internal shape: one count per character, a valid draw source.
    pub closed spec fn shape_ok(self) -> bool {
        self.counts@.len() == 5 && self.source.wf()
    }

    /// No per-character count is negative.
    pub open spec fn counts_nonneg(self) -> bool {
        forall|c: Character| self.count_of(c) >= 0
    }

    pub open spec fn wf(self) -> bool {
        self.shape_ok() && self.counts_nonneg() && self.total_physical() <= DECK_CAP
    }

    /// The character the draw index `idx` falls on: the first
    /// `count_of(Duke)` indices are Dukes, the next `count_of(Assassin)`
    /// Assassins, and so on. One index per physical card.
    pub open spec fn card_at(self, idx: int) -> Character {
        if idx < self.count_of(Character::Duke) {
            Character::Duke
        } else if idx < self.count_of(Character::Duke) + self.count_of(Character::Assassin) {
            Character::Assassin
        } else if idx < self.count_of(Character::Duke) + self.count_of(Character::Assassin)
            + self.count_of(Character::Ambassador) {
            Character::Ambassador
        } else if idx < self.count_of(Character::Duke) + self.count_of(Character::Assassin)
            + self.count_of(Character::Ambassador) + self.count_of(Character::Captain) {
            Character::Captain
        } else {
            Character::Contessa
        }
    }

    /// The first draw index of character `c`'s block in `card_at`: the
    /// total count of all characters with a smaller dense index.
    pub open spec fn block_start(self, c: Character) -> int {
        if c == Character::Duke {
            0
        } else if c == Character::Assassin {
            self.count_of(Character::Duke)
        } else if c == Character::Ambassador {
            self.count_of(Character::Duke) + self.count_of(Character::Assassin)
        } else if c == Character::Captain {
            self.count_of(Character::Duke) + self.count_of(Character::Assassin) + self.count_of(
                Character::Ambassador,
            )
        } else {
            self.count_of(Character::Duke) + self.count_of(Character::Assassin) + self.count_of(
                Character::Ambassador,
            ) + self.count_of(Character::Captain)
        }
    }

    /// The character a draw index falls on once the discard pile has been
    /// folded back into the deck: the same blocks as `card_at`, but over
    /// the whole pool (`char_total`) instead of the deck proper.
    pub open spec fn pool_card_at(self, idx: int) -> Character {
        if idx < self.char_total(Character::Duke) {
            Character::Duke
        } else if idx < self.char_total(Character::Duke) + self.char_total(Character::Assassin) {
            Character::Assassin
        } else if idx < self.char_total(Character::Duke) + self.char_total(Character::Assassin)
            + self.char_total(Character::Ambassador) {
            Character::Ambassador
        } else if idx < self.char_total(Character::Duke) + self.char_total(Character::Assassin)
            + self.char_total(Character::Ambassador) + self.char_total(Character::Captain) {
            Character::Captain
        } else {
            Character::Contessa
        }
    }

    /// The deck's count of `c` once one card of `removed` has left it.
    pub open spec fn count_after(self, removed: Character, c: Character) -> int {
        self.count_of(c) - if c == removed {
            1int
        } else {
            0int
        }
    }

    /// The character a draw index falls on once one card of `removed`
    /// has left the deck: the `card_at` blocks over the reduced counts.
    /// Pins the second of two scripted draws.
    pub open spec fn card_at_after(self, removed: Character, idx: int) -> Character {
        if idx < self.count_after(removed, Character::Duke) {
            Character::Duke
        } else if idx < self.count_after(removed, Character::Duke) + self.count_after(
            removed,
            Character::Assassin,
        ) {
            Character::Assassin
        } else if idx < self.count_after(removed, Character::Duke) + self.count_after(
            removed,
            Character::Assassin,
        ) + self.count_after(removed, Character::Ambassador) {
            Character::Ambassador
        } else if idx < self.count_after(removed, Character::Duke) + self.count_after(
            removed,
            Character::Assassin,
        ) + self.count_after(removed, Character::Ambassador) + self.count_after(
            removed,
            Character::Captain,
        ) {
            Character::Captain
        } else {
            Character::Contessa
        }
    }

    /// A deck with the given number of cards per character (indexed by
    /// `Character::index`), an empty discard pile, and the given draw
    /// source.
    pub fn new(composition: &Vec<usize>, source: DrawSource) -> (d: Deck)
        requires
            composition@.len() == 5,
            composition@[0] + composition@[1] + composition@[2] + composition@[3] + composition@[4]
                <= DECK_CAP,
            source.wf(),
        ensures
            d.wf(),
            forall|c: Character| d.count_of(c) == composition@[c.index_spec()],
            d.pile() == Seq::<Character>::empty(),
            d.source_remaining() == source.remaining(),
    {
        let mut counts: Vec<usize> = Vec::new();
        counts.push(composition[0]);
        counts.push(composition[1]);
        counts.push(composition[2]);
        counts.push(composition[3]);
        counts.push(composition[4]);
        let d = Deck { counts, discard: Vec::new(), source };
        proof {
            assert(d.counts@ =~= composition@);
            assert(d.pile() =~= Seq::<Character>::empty());
        }
        d
    }

    /// The canonical deck: three cards of each of the five characters.
    pub fn standard(source: DrawSource) -> (d: Deck)
        requires
            source.wf(),
        ensures
            d.wf(),
            forall|c: Character| d.count_of(c) == 3,
            d.pile() == Seq::<Character>::empty(),
            d.total_physical() == 15,
            d.source_remaining() == source.remaining(),
    {
        let mut composition: Vec<usize> = Vec::new();
        composition.push(3);
        composition.push(3);
        composition.push(3);
        composition.push(3);
        composition.push(3);
        Deck::new(&composition, source)
    }

    /// Cards remaining in the deck proper.
    pub fn total_count(&self) -> (r: usize)
        requires
            self.wf(),
        ensures
            r == self.deck_total(),
    {
        self.counts[0] + self.counts[1] + self.counts[2] + self.counts[3] + self.counts[4]
    }

    /// Size of the discard pile.
    pub fn discard_len(&self) -> (r: usize)
        ensures
            r == self.pile().len(),
    {
        self.discard.len()
    }

    /// Cards of character `c` still in the deck proper.
    pub fn remaining_of(&self, c: Character) -> (r: usize)
        requires
            self.wf(),
        ensures
            r == self.count_of(c),
    {
        self.counts[c.index()]
    }

    /// Put a card onto the discard pile: it leaves circulation until a
    /// reshuffle folds the pile back into the deck.
    pub fn discard_card(&mut self, c: Character)
        requires
            old(self).wf(),
            old(self).total_physical() < DECK_CAP,
        ensures
            final(self).wf(),
            final(self).pile() == old(self).pile().push(c),
            forall|d: Character| final(self).count_of(d) == old(self).count_of(d),
            final(self).char_total(c) == old(self).char_total(c) + 1,
            forall|d: Character| d != c ==> final(self).char_total(d) == old(self).char_total(d),
            final(self).total_physical() == old(self).total_physical() + 1,
            final(self).source_remaining() == old(self).source_remaining(),
    {
        proof {
            crate::counting::lemma_count_push(self.discard@, c, c);
            assert forall|d: Character| d != c implies count_of_char(self.discard@.push(c), d)
                == count_of_char(self.discard@, d) by {
                crate::counting::lemma_count_push(self.discard@, c, d);
            }
        }
        self.discard.push(c);
    }

    /// Put a card straight back into the deck: it re-enters circulation
    /// at once (a revealed card after a challenge, or an exchange return).
    pub fn return_card(&mut self, c: Character)
        requires
            old(self).wf(),
            old(self).total_physical() < DECK_CAP,
        ensures
            final(self).wf(),
            final(self).count_of(c) == old(self).count_of(c) + 1,
            forall|d: Character| d != c ==> final(self).count_of(d) == old(self).count_of(d),
            final(self).pile() == old(self).pile(),
            final(self).char_total(c) == old(self).char_total(c) + 1,
            forall|d: Character| d != c ==> final(self).char_total(d) == old(self).char_total(d),
            final(self).total_physical() == old(self).total_physical() + 1,
            final(self).source_remaining() == old(self).source_remaining(),
    {
        let i = c.index();
        let v = self.counts[i];
        self.counts.set(i, v + 1);
    }

    /// Fold the discard pile back into the deck, preserving each
    /// character's multiplicity, and clear the pile.
    fn reshuffle_from_discard(&mut self)
        requires
            old(self).wf(),
        ensures
            final(self).wf(),
            forall|c: Character| final(self).char_total(c) == old(self).char_total(c),
            forall|c: Character| final(self).count_of(c) == old(self).count_of(c) + count_of_char(
                old(self).pile(),
                c,
            ),
            final(self).pile().len() == 0,
            final(self).total_physical() == old(self).total_physical(),
            final(self).deck_total() == old(self).total_physical(),
            final(self).source_remaining() == old(self).source_remaining(),
    {
        while self.discard.len() > 0
            invariant
                self.counts@.len() == 5,
                self.source == old(self).source,
                self.total_physical() == old(self).total_physical(),
                self.total_physical() <= DECK_CAP,
                forall|c: Character| self.char_total(c) == old(self).char_total(c),
            decreases self.discard.len(),
        {
            let c = self.discard.pop().unwrap();
            let i = c.index();
            let v = self.counts[i];
            self.counts.set(i, v + 1);
        }
        proof {
            assert forall|c: Character| self.count_of(c) == old(self).count_of(c) + count_of_char(
                old(self).pile(),
                c,
            ) by {
                assert(self.char_total(c) == old(self).char_total(c));
                assert(count_of_char(self.discard@, c) == 0);
            }
        }
    }

    /// Draw one card, uniformly over the remaining physical cards. If the
    /// deck proper is empty the discard pile is first folded back in
    /// (rebuilding the counts with the pile's exact multiplicities) and
    /// cleared before the draw; if both are empty the draw fails with
    /// `DeckExhausted` and nothing changes. A successful draw removes
    /// exactly one card, of the drawn character, from circulation here.
    /// With a scripted source the drawn card is determined: `card_at` of
    /// the script's head reduced modulo the deck's size, or — when the
    /// draw reshuffles first — `pool_card_at` of the head reduced modulo
    /// the whole pool.
    pub fn draw_random(&mut self) -> (r: Result<Character, ActionError>)
        requires
            old(self).wf(),
        ensures
            final(self).wf(),
            r is Err <==> old(self).total_physical() == 0,
            match r {
                Ok(c) => old(self).char_total(c) > 0
                    && final(self).char_total(c) == old(self).char_total(c) - 1
                    && (forall|d: Character|
                    d != c ==> final(self).char_total(d) == old(self).char_total(d))
                    && final(self).total_physical() == old(self).total_physical() - 1,
                Err(e) => e == ActionError::DeckExhausted && *final(self) == *old(self),
            },
            old(self).total_physical() > 0 ==> final(self).pile() == (if old(self).deck_total()
                > 0 {
                old(self).pile()
            } else {
                Seq::<Character>::empty()
            }),
            old(self).deck_total() > 0 && old(self).source_remaining().len() > 0 ==> r == Ok::<
                Character,
                ActionError,
            >(old(self).card_at(old(self).source_remaining()[0] as int % old(self).deck_total())),
            old(self).deck_total() == 0 && old(self).pile().len() > 0 && old(
                self,
            ).source_remaining().len() > 0 ==> r == Ok::<Character, ActionError>(
                old(self).pool_card_at(
                    old(self).source_remaining()[0] as int % old(self).total_physical(),
                ),
            ),
            old(self).total_physical() > 0 ==> final(self).source_remaining() == if old(self).source_remaining().len() > 0 {
                old(self).source_remaining().subrange(1, old(self).source_remaining().len() as int)
            } else {
                old(self).source_remaining()
            },
    {
        if self.total_count() == 0 {
            if self.discard.len() == 0 {
                return Err(ActionError::DeckExhausted);
            }
            self.reshuffle_from_discard();
        }
        let total = self.total_count();
        let roll = self.source.next_below(total);
        let c = self.draw_at(roll);
        proof {
            crate::counting::lemma_count_bounds(self.discard@, c);
            if old(self).deck_total() == 0 {
                assert(self.pile() =~= Seq::<Character>::empty());
            }
        }
        Ok(c)
    }

    /// Remove and return the card at draw index `idx`.
    fn draw_at(&mut self, idx: usize) -> (c: Character)
        requires
            old(self).wf(),
            idx < old(self).deck_total(),
        ensures
            final(self).wf(),
            c == old(self).card_at(idx as int),
            old(self).count_of(c) > 0,
            final(self).count_of(c) == old(self).count_of(c) - 1,
            forall|d: Character| d != c ==> final(self).count_of(d) == old(self).count_of(d),
            final(self).pile() == old(self).pile(),
            final(self).char_total(c) == old(self).char_total(c) - 1,
            forall|d: Character| d != c ==> final(self).char_total(d) == old(self).char_total(d),
            final(self).total_physical() == old(self).total_physical() - 1,
            final(self).source_remaining() == old(self).source_remaining(),
    {
        let c0 = self.counts[0];
        if idx < c0 {
            self.counts.set(0, c0 - 1);
            return Character::Duke;
        }
        let c1 = self.counts[1];
        if idx < c0 + c1 {
            self.counts.set(1, c1 - 1);
            return Character::Assassin;
        }
        let c2 = self.counts[2];
        if idx < c0 + c1 + c2 {
            self.counts.set(2, c2 - 1);
            return Character::Ambassador;
        }
        let c3 = self.counts[3];
        if idx < c0 + c1 + c2 + c3 {
            self.counts.set(3, c3 - 1);
            return Character::Captain;
        }
        let c4 = self.counts[4];
        self.counts.set(4, c4 - 1);
        Character::Contessa
    }
}

/// Draws are weighted by the remaining counts: index `idx` yields
/// character `c` exactly when `idx` lies in `c`'s block of the index
/// range, whose width is `count_of(c)`. Each character therefore gets
/// exactly as many draw indices as it has physical cards in the deck.
pub proof fn lemma_draw_weighted(d: Deck, c: Character, idx: int)
    requires
        d.wf(),
        0 <= idx < d.deck_total(),
    ensures
        d.card_at(idx) == c <==> d.block_start(c) <= idx < d.block_start(c) + d.count_of(c),
{
}

} // verus!
