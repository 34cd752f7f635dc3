//! What the game screen derives from the state it is shown: the hand as a row of cards, and
//! the winner.
use crate::card::{card_index, lemma_card_index_bijective, Card, NUM_CARD_KINDS};
use crate::player::hand_of_entries;
use vstd::prelude::*;

verus! {

broadcast use vstd::seq_lib::group_to_multiset_ensures, vstd::multiset::group_multiset_axioms,
    vstd::multiset::group_multiset_properties;

/// How many copies of `card` a list of (card, count) entries describes.
pub open spec fn entry_count(entries: Seq<(Card, i64)>, card: Card) -> int
    decreases entries.len(),
{
    if entries.len() == 0 {
        0
    } else {
        entry_count(entries.drop_last(), card) + if entries.last().0 == card {
            entries.last().1 as int
        } else {
            0
        }
    }
}

/// With counts that are not negative, the hand an entry list describes holds `entry_count`
/// copies of each card.
pub proof fn lemma_hand_of_entries_count(entries: Seq<(Card, i64)>, card: Card)
    requires
        forall|k: int| 0 <= k < entries.len() ==> #[trigger] entries[k].1 >= 0,
    ensures
        hand_of_entries(entries).count(card) == entry_count(entries, card),
        entry_count(entries, card) >= 0,
    decreases entries.len(),
{
    if entries.len() > 0 {
        let rest = entries.drop_last();
        assert forall|k: int| 0 <= k < rest.len() implies #[trigger] rest[k].1 >= 0 by {
            assert(rest[k] == entries[k]);
        }
        lemma_hand_of_entries_count(rest, card);
        assert(entries.last().1 >= 0);
    }
}

/// The cards of a hand listing laid out in a row: each entry's card repeated `count` times,
/// cards in increasing `card_index` order.
pub fn expand_hand(hand: &Vec<(Card, i64)>) -> (cards: Vec<Card>)
    requires
        forall|k: int| 0 <= k < hand.len() ==> #[trigger] hand[k].1 >= 0,
    ensures
        cards@.to_multiset() == hand_of_entries(hand@),
        forall|i: int, j: int|
            0 <= i < j < cards.len() ==> card_index(#[trigger] cards@[i]) <= card_index(#[trigger] cards@[j]),
{
    let mut cards: Vec<Card> = Vec::new();
    let mut rank: usize = 0;
    while rank < NUM_CARD_KINDS
        invariant
            rank <= NUM_CARD_KINDS,
            forall|k: int| 0 <= k < hand.len() ==> #[trigger] hand[k].1 >= 0,
            forall|c: Card|
                #[trigger] cards@.to_multiset().count(c) == if card_index(c) < rank {
                    entry_count(hand@, c)
                } else {
                    0
                },
            forall|i: int| 0 <= i < cards.len() ==> card_index(#[trigger] cards@[i]) < rank,
            forall|i: int, j: int|
                0 <= i < j < cards.len() ==> card_index(#[trigger] cards@[i]) <= card_index(#[trigger] cards@[j]),
        decreases NUM_CARD_KINDS - rank,
    {
        let card = Card::at_index(rank);
        let ghost before = cards@.to_multiset();
        let ghost before_len = cards.len();
        let mut j: usize = 0;
        proof {
            assert(hand@.take(0) =~= Seq::<(Card, i64)>::empty());
        }
        while j < hand.len()
            invariant
                j <= hand.len(),
                rank < NUM_CARD_KINDS,
                card_index(card) == rank,
                before_len <= cards.len(),
                forall|k: int| 0 <= k < hand.len() ==> #[trigger] hand[k].1 >= 0,
                forall|c: Card| c != card ==> #[trigger] cards@.to_multiset().count(c) == before.count(c),
                cards@.to_multiset().count(card) == before.count(card) + entry_count(hand@.take(j as int), card),
                forall|i: int| 0 <= i < before_len ==> card_index(#[trigger] cards@[i]) < rank,
                forall|i: int| before_len <= i < cards.len() ==> #[trigger] cards@[i] == card,
                forall|i: int, j: int|
                    0 <= i < j < before_len ==> card_index(#[trigger] cards@[i]) <= card_index(#[trigger] cards@[j]),
            decreases hand.len() - j,
        {
            proof {
                assert(hand@.take(j + 1).drop_last() =~= hand@.take(j as int));
                assert(hand@.take(j + 1).last() == hand@[j as int]);
            }
            if hand[j].0 == card {
                let count = hand[j].1;
                let mut n: i64 = 0;
                let ghost at_start = cards@.to_multiset();
                while n < count
                    invariant
                        0 <= n <= count,
                        before_len <= cards.len(),
                        forall|c: Card| c != card ==> #[trigger] cards@.to_multiset().count(c) == at_start.count(c),
                        cards@.to_multiset().count(card) == at_start.count(card) + n,
                        forall|i: int| 0 <= i < before_len ==> card_index(#[trigger] cards@[i]) < rank,
                        forall|i: int| before_len <= i < cards.len() ==> #[trigger] cards@[i] == card,
                        forall|i: int, j: int|
                            0 <= i < j < before_len ==> card_index(#[trigger] cards@[i]) <= card_index(#[trigger] cards@[j]),
                    decreases count - n,
                {
                    cards.push(card);
                    n = n + 1;
                }
            }
            j = j + 1;
        }
        proof {
            assert(hand@.take(hand.len() as int) =~= hand@);
            assert forall|c: Card| #[trigger] cards@.to_multiset().count(c) == if card_index(c) < rank + 1 {
                entry_count(hand@, c)
            } else {
                0
            } by {
                lemma_card_index_bijective(c, rank as int);
                lemma_card_index_bijective(card, rank as int);
                if c != card {
                    assert(card_index(c) != rank);
                }
            }
            assert forall|i: int, j: int|
                0 <= i < j < cards.len() implies card_index(#[trigger] cards@[i]) <= card_index(#[trigger] cards@[j]) by {
                if j >= before_len {
                    assert(cards@[j] == card);
                    if i >= before_len {
                        assert(cards@[i] == card);
                    }
                }
            }
        }
        rank = rank + 1;
    }
    proof {
        assert forall|c: Card| #[trigger] cards@.to_multiset().count(c) == hand_of_entries(hand@).count(c) by {
            lemma_card_index_bijective(c, 0);
            lemma_hand_of_entries_count(hand@, c);
        }
        assert(cards@.to_multiset() =~= hand_of_entries(hand@));
    }
    cards
}

/// The first player in the list whose card count is zero: the winner, once there is one.
pub fn find_winner(card_counts: &Vec<(String, i64)>) -> (winner: Option<String>)
    ensures
        match winner {
            Some(name) => exists|i: int|
                0 <= i < card_counts.len() && (#[trigger] card_counts@[i]).1 == 0 && card_counts@[i].0@ == name@
                    && forall|j: int| 0 <= j < i ==> (#[trigger] card_counts@[j]).1 != 0,
            None => forall|i: int| 0 <= i < card_counts.len() ==> (#[trigger] card_counts@[i]).1 != 0,
        },
{
    let mut i: usize = 0;
    while i < card_counts.len()
        invariant
            i <= card_counts.len(),
            forall|j: int| 0 <= j < i ==> (#[trigger] card_counts@[j]).1 != 0,
        decreases card_counts.len() - i,
    {
        if card_counts[i].1 == 0 {
            let name = card_counts[i].0.clone();
            proof {
                assert(card_counts@[i as int].0@ == name@);
            }
            return Some(name);
        }
        i = i + 1;
    }
    None
}

/// The card count listed for `name`: the first entry under that name, or 0 when there is
/// none.
pub fn card_count_of(card_counts: &Vec<(String, i64)>, name: &String) -> (count: i64)
    ensures
        (exists|i: int|
            0 <= i < card_counts.len() && (#[trigger] card_counts@[i]).0@ == name@ && card_counts@[i].1 == count
                && forall|j: int| 0 <= j < i ==> (#[trigger] card_counts@[j]).0@ != name@)
            || (count == 0 && forall|i: int| 0 <= i < card_counts.len() ==> (#[trigger] card_counts@[i]).0@ != name@),
{
    let mut i: usize = 0;
    while i < card_counts.len()
        invariant
            i <= card_counts.len(),
            forall|j: int| 0 <= j < i ==> (#[trigger] card_counts@[j]).0@ != name@,
        decreases card_counts.len() - i,
    {
        if card_counts[i].0 == *name {
            return card_counts[i].1;
        }
        i = i + 1;
    }
    0
}

} // verus!
