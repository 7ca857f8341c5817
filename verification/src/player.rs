//! Per-player state: a coin balance and the held face-down influence
//! cards. Only the resolution engine mutates a player; every operation
//! validates before it mutates, so a failed call leaves the player
//! unchanged.

use vstd::prelude::*;

use crate::catalog::Character;
use crate::counting::count_of_char;
use crate::counting::lemma_count_gives_index;
use crate::counting::lemma_count_push;
use crate::counting::lemma_count_remove;
use crate::counting::lemma_index_gives_count;
use crate::error::ActionError;

verus! {

/// One player: a name (a label, stable for the session), a coin balance
/// and the held influence cards. A player with no cards left is
/// eliminated.
pub struct Player {
    name: String,
    coins: u64,
    cards: Vec<Character>,
}

impl Player {
    /// The player's coin balance.
    pub closed spec fn coins(self) -> int {
        self.coins as int
    }

    /// The held influence cards, in hand order. Order carries no meaning;
    /// the hand is a multiset of characters.
    pub closed spec fn hand(self) -> Seq<Character> {
        self.cards@
    }

    /// The player's name.
    pub closed spec fn name_spec(self) -> Seq<char> {
        self.name@
    }

    /// A player is eliminated exactly when no influence cards are left.
    pub open spec fn eliminated(self) -> bool {
        self.hand().len() == 0
    }

    /// Whether the player holds at least one card of character `c`.
    pub open spec fn holds_spec(self, c: Character) -> bool {
        count_of_char(self.hand(), c) > 0
    }

    /// The name is unchanged; used by mutators' contracts.
    pub open spec fn same_name(pre: Player, post: Player) -> bool {
        post.name_spec() == pre.name_spec()
    }

    /// A new player with the given starting stake and an empty hand.
    pub fn new(name: String, coins: u64) -> (p: Player)
        ensures
            p.coins() == coins,
            p.hand() == Seq::<Character>::empty(),
            p.name_spec() == name@,
    {
        Player { name, coins, cards: Vec::new() }
    }

    /// The coin balance.
    pub fn coin_balance(&self) -> (r: u64)
        ensures
            r == self.coins(),
    {
        self.coins
    }

    /// How many influence cards the player still holds.
    pub fn influence_count(&self) -> (r: usize)
        ensures
            r == self.hand().len(),
    {
        self.cards.len()
    }

    /// True exactly when the player holds no influence cards.
    pub fn is_eliminated(&self) -> (r: bool)
        ensures
            r == self.eliminated(),
    {
        self.cards.len() == 0
    }

    /// The player's name.
    pub fn name(&self) -> (r: &String)
        ensures
            r@ == self.name_spec(),
    {
        &self.name
    }

    /// A copy of the held cards, for the owner's own view.
    pub fn hand_cards(&self) -> (v: Vec<Character>)
        ensures
            v@ == self.hand(),
    {
        let mut v: Vec<Character> = Vec::new();
        let mut i: usize = 0;
        while i < self.cards.len()
            invariant
                i <= self.cards.len(),
                v@ =~= self.cards@.subrange(0, i as int),
            decreases self.cards.len() - i,
        {
            v.push(self.cards[i]);
            i += 1;
        }
        proof {
            assert(v@ =~= self.cards@);
        }
        v
    }

    /// Whether the player holds a card of character `c`.
    pub fn holds(&self, c: Character) -> (r: bool)
        ensures
            r == self.holds_spec(c),
    {
        let mut i: usize = 0;
        while i < self.cards.len()
            invariant
                i <= self.cards.len(),
                forall|j: int| 0 <= j < i ==> self.cards@[j] != c,
            decreases self.cards.len() - i,
        {
            if self.cards[i] == c {
                proof {
                    lemma_index_gives_count(self.cards@, i as int, c);
                }
                return true;
            }
            i += 1;
        }
        proof {
            if count_of_char(self.cards@, c) > 0 {
                lemma_count_gives_index(self.cards@, c);
            }
        }
        false
    }

    /// How many cards of character `c` the player holds.
    pub fn count_of(&self, c: Character) -> (r: usize)
        ensures
            r == count_of_char(self.hand(), c),
    {
        let mut cnt: usize = 0;
        let mut i: usize = 0;
        while i < self.cards.len()
            invariant
                i <= self.cards.len(),
                cnt == count_of_char(self.cards@.subrange(0, i as int), c),
                cnt <= i,
            decreases self.cards.len() - i,
        {
            proof {
                assert(self.cards@.subrange(0, i + 1).drop_last() =~= self.cards@.subrange(
                    0,
                    i as int,
                ));
            }
            if self.cards[i] == c {
                cnt += 1;
            }
            i += 1;
        }
        proof {
            assert(self.cards@.subrange(0, self.cards@.len() as int) =~= self.cards@);
        }
        cnt
    }

    /// Add coins from the bank. The bank is unbounded; the bound here is
    /// only the machine's.
    pub fn add_coins(&mut self, n: u64)
        requires
            old(self).coins() + n <= u64::MAX,
        ensures
            final(self).coins() == old(self).coins() + n,
            final(self).hand() == old(self).hand(),
            Player::same_name(*old(self), *final(self)),
    {
        self.coins = self.coins + n;
    }

    /// Pay coins. Fails with `InsufficientFunds`, and changes nothing,
    /// exactly when the balance is short.
    pub fn remove_coins(&mut self, n: u64) -> (r: Result<(), ActionError>)
        ensures
            old(self).coins() >= n ==> r == Ok::<(), ActionError>(())
                && final(self).coins() == old(self).coins() - n,
            old(self).coins() < n ==> r == Err::<(), ActionError>(ActionError::InsufficientFunds)
                && final(self).coins() == old(self).coins(),
            final(self).hand() == old(self).hand(),
            Player::same_name(*old(self), *final(self)),
    {
        if self.coins >= n {
            self.coins = self.coins - n;
            Ok(())
        } else {
            Err(ActionError::InsufficientFunds)
        }
    }

    /// Take a freshly drawn card into the hand.
    pub fn gain_card(&mut self, c: Character)
        ensures
            final(self).hand() == old(self).hand().push(c),
            final(self).coins() == old(self).coins(),
            Player::same_name(*old(self), *final(self)),
            count_of_char(final(self).hand(), c) == count_of_char(old(self).hand(), c) + 1,
            forall|d: Character| d != c ==> count_of_char(final(self).hand(), d) == count_of_char(
                old(self).hand(),
                d,
            ),
    {
        proof {
            lemma_count_push(self.cards@, c, c);
            assert forall|d: Character| d != c implies count_of_char(
                self.cards@.push(c),
                d,
            ) == count_of_char(self.cards@, d) by {
                lemma_count_push(self.cards@, c, d);
            }
        }
        self.cards.push(c);
    }

    /// Give up one held card of character `c`. Fails with `CardNotHeld`,
    /// and changes nothing, exactly when no such card is held; otherwise
    /// exactly one card of that character leaves the hand.
    pub fn lose_influence(&mut self, c: Character) -> (r: Result<(), ActionError>)
        ensures
            old(self).holds_spec(c) ==> r == Ok::<(), ActionError>(())
                && final(self).hand().len() == old(self).hand().len() - 1
                && count_of_char(final(self).hand(), c) == count_of_char(old(self).hand(), c) - 1
                && (forall|d: Character| d != c ==> count_of_char(final(self).hand(), d)
                == count_of_char(old(self).hand(), d)),
            !old(self).holds_spec(c) ==> r == Err::<(), ActionError>(ActionError::CardNotHeld)
                && final(self).hand() == old(self).hand(),
            final(self).coins() == old(self).coins(),
            Player::same_name(*old(self), *final(self)),
    {
        let mut i: usize = 0;
        while i < self.cards.len()
            invariant
                *self == *old(self),
                i <= self.cards.len(),
                forall|j: int| 0 <= j < i ==> self.cards@[j] != c,
            decreases self.cards.len() - i,
        {
            if self.cards[i] == c {
                proof {
                    lemma_index_gives_count(self.cards@, i as int, c);
                    lemma_count_remove(self.cards@, i as int, c);
                    assert forall|d: Character| d != c implies count_of_char(
                        self.cards@.remove(i as int),
                        d,
                    ) == count_of_char(self.cards@, d) by {
                        lemma_count_remove(self.cards@, i as int, d);
                    }
                }
                self.cards.remove(i);
                return Ok(());
            }
            i += 1;
        }
        proof {
            if count_of_char(self.cards@, c) > 0 {
                lemma_count_gives_index(self.cards@, c);
            }
        }
        Err(ActionError::CardNotHeld)
    }
}

} // verus!
