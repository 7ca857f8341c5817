//! Counting occurrences of a character in a sequence of cards, with the
//! lemmas the deck and player modules need about pushes, removals and the
//! relation between per-character counts and a sequence's length.

use vstd::prelude::*;

use crate::catalog::Character;

verus! {

/// How many cards of character `c` the sequence `s` holds.
pub open spec fn count_of_char(s: Seq<Character>, c: Character) -> int
    decreases s.len(),
{
    if s.len() == 0 {
        0
    } else {
        count_of_char(s.drop_last(), c) + if s.last() == c {
            1int
        } else {
            0int
        }
    }
}

/// A per-character count is between zero and the sequence's length.
pub proof fn lemma_count_bounds(s: Seq<Character>, c: Character)
    ensures
        0 <= count_of_char(s, c) <= s.len(),
    decreases s.len(),
{
    if s.len() > 0 {
        lemma_count_bounds(s.drop_last(), c);
    }
}

/// Pushing a card changes only the count of its own character, by one.
pub proof fn lemma_count_push(s: Seq<Character>, x: Character, c: Character)
    ensures
        count_of_char(s.push(x), c) == count_of_char(s, c) + if x == c {
            1int
        } else {
            0int
        },
{
    assert(s.push(x).drop_last() =~= s);
}

/// Removing the card at index `i` changes only the count of that card's
/// character, by one.
pub proof fn lemma_count_remove(s: Seq<Character>, i: int, c: Character)
    requires
        0 <= i < s.len(),
    ensures
        count_of_char(s.remove(i), c) == count_of_char(s, c) - if s[i] == c {
            1int
        } else {
            0int
        },
    decreases s.len(),
{
    if i == s.len() - 1 {
        assert(s.remove(i) =~= s.drop_last());
    } else {
        assert(s.remove(i).drop_last() =~= s.drop_last().remove(i));
        lemma_count_remove(s.drop_last(), i, c);
    }
}

/// An index holding `c` gives a positive count of `c`.
pub proof fn lemma_index_gives_count(s: Seq<Character>, i: int, c: Character)
    requires
        0 <= i < s.len(),
        s[i] == c,
    ensures
        count_of_char(s, c) > 0,
    decreases s.len(),
{
    if i == s.len() - 1 {
        lemma_count_bounds(s.drop_last(), c);
    } else {
        lemma_index_gives_count(s.drop_last(), i, c);
    }
}

/// A sequence with a positive count of `c` contains an index holding `c`.
pub proof fn lemma_count_gives_index(s: Seq<Character>, c: Character)
    requires
        count_of_char(s, c) > 0,
    ensures
        exists|i: int| 0 <= i < s.len() && s[i] == c,
    decreases s.len(),
{
    if s.len() > 0 {
        if s.last() == c {
            assert(s[s.len() - 1] == c);
        } else {
            lemma_count_gives_index(s.drop_last(), c);
            let i = choose|i: int| 0 <= i < s.drop_last().len() && s.drop_last()[i] == c;
            assert(s[i] == c);
        }
    }
}

} // verus!
