use crate::card::{card_index, lemma_card_index_bijective, Card, NUM_CARD_KINDS};
use vstd::multiset::Multiset;
use vstd::prelude::*;

verus! {

broadcast use vstd::seq_lib::group_to_multiset_ensures, vstd::multiset::group_multiset_axioms,
    vstd::multiset::group_multiset_properties;

/// Represents a player inside of a game.
#[derive(Debug)]
pub struct Player {
    hand: Vec<Card>,
    active: bool,
    username: String,
    dealt: usize,
}

/// What a player is: a name, a multiset of cards in hand, an activity flag, and how many
/// cards the player was dealt when created.
pub struct PlayerView {
    pub username: Seq<char>,
    pub hand: Multiset<Card>,
    pub active: bool,
    pub dealt: nat,
}

impl View for Player {
    type V = PlayerView;

    closed spec fn view(&self) -> PlayerView {
        PlayerView {
            username: self.username@,
            hand: self.hand@.to_multiset(),
            active: self.active,
            dealt: self.dealt as nat,
        }
    }
}

/// The hand size that topping up a hand of `held` cards to `count` more than the `dealt`
/// cards gives: `dealt + count`, or `held` when the hand holds that many already or `count`
/// is not positive.
pub open spec fn topped_up(held: nat, dealt: nat, count: int) -> nat {
    if count > 0 && dealt + count > held {
        (dealt + count) as nat
    } else {
        held
    }
}

/// `k` copies of `card`.
pub open spec fn copies(card: Card, k: nat) -> Multiset<Card> {
    Multiset::empty().update(card, k)
}

/// The hand that a list of (card, count) entries describes: each entry contributes
/// `count` copies of its card, and repeated cards add up.
pub open spec fn hand_of_entries(entries: Seq<(Card, i64)>) -> Multiset<Card>
    decreases entries.len(),
{
    if entries.len() == 0 {
        Multiset::empty()
    } else {
        hand_of_entries(entries.drop_last()).add(
            copies(entries.last().0, entries.last().1 as nat),
        )
    }
}

/// `listing` lists the cards of `hand` with their counts: one entry per card that the
/// hand holds, with its positive count, in increasing `card_index` order.
pub open spec fn is_hand_listing(hand: Multiset<Card>, listing: Seq<(Card, i64)>) -> bool {
    &&& forall|k: int|
        0 <= k < listing.len() ==> {
            &&& listing[k].1 > 0
            &&& #[trigger] listing[k].1 == hand.count(listing[k].0)
        }
    &&& forall|c: Card| hand.count(c) > 0 ==> exists|k: int| 0 <= k < listing.len() && #[trigger] listing[k].0 == c
    &&& forall|j: int, k: int|
        0 <= j < k < listing.len() ==> card_index(#[trigger] listing[j].0) < card_index(
            #[trigger] listing[k].0,
        )
}

proof fn lemma_take_push<A>(s: Seq<A>, j: int)
    requires
        0 <= j < s.len(),
    ensures
        s.take(j + 1) == s.take(j).push(s[j]),
{
    assert(s.take(j + 1) =~= s.take(j).push(s[j]));
}

impl Player {
    /// A player with the given name, active, dealt `starting_hand_size` random cards
    /// (none when the size is not positive).
    pub fn new(username: String, starting_hand_size: i64) -> (player: Player)
        ensures
            player@.username == username@,
            player@.active,
            player@.hand.len() == if starting_hand_size > 0 { starting_hand_size as int } else { 0 },
            player@.dealt == player@.hand.len(),
    {
        let mut player = Player { hand: Vec::new(), active: true, username, dealt: 0 };
        proof {
            assert(player.hand@ =~= Seq::<Card>::empty());
        }
        player.add_cards(starting_hand_size);
        player.dealt = player.hand.len();
        player
    }

    /// A player with the given name, active, whose hand holds `count` copies of each
    /// listed card.
    pub fn with_hand(username: String, hand: Vec<(Card, i64)>) -> (player: Player)
        requires
            forall|k: int| 0 <= k < hand.len() ==> #[trigger] hand[k].1 > 0,
        ensures
            player@.username == username@,
            player@.active,
            player@.hand == hand_of_entries(hand@),
            player@.dealt == player@.hand.len(),
    {
        let mut player = Player { hand: Vec::new(), active: true, username, dealt: 0 };
        let ghost uname = username@;
        proof {
            assert(player.hand@ =~= Seq::<Card>::empty());
            assert(player@.hand =~= hand_of_entries(hand@.take(0)));
        }
        let mut i: usize = 0;
        while i < hand.len()
            invariant
                i <= hand.len(),
                forall|k: int| 0 <= k < hand.len() ==> #[trigger] hand[k].1 > 0,
                player@.username == uname,
                player@.active,
                player@.hand == hand_of_entries(hand@.take(i as int)),
            decreases hand.len() - i,
        {
            let (card, count) = hand[i];
            let ghost base = player@.hand;
            let mut j: i64 = 0;
            proof {
                assert(base.add(copies(card, 0)) =~= base);
            }
            while j < count
                invariant
                    0 <= j <= count,
                    player@.username == uname,
                    player@.active,
                    player@.hand == base.add(copies(card, j as nat)),
                decreases count - j,
            {
                player.add_card(card);
                proof {
                    assert(base.add(copies(card, j as nat)).insert(card) =~= base.add(
                        copies(card, (j + 1) as nat),
                    ));
                }
                j = j + 1;
            }
            proof {
                assert(hand@.take(i + 1).drop_last() =~= hand@.take(i as int));
            }
            i = i + 1;
        }
        proof {
            assert(hand@.take(hand.len() as int) =~= hand@);
        }
        player.dealt = player.hand.len();
        player
    }

    pub fn make_active(&mut self)
        ensures
            final(self)@.active,
            final(self)@.username == old(self)@.username,
            final(self)@.hand == old(self)@.hand,
            final(self)@.dealt == old(self)@.dealt,
    {
        self.active = true;
    }

    pub fn make_inactive(&mut self)
        ensures
            !final(self)@.active,
            final(self)@.username == old(self)@.username,
            final(self)@.hand == old(self)@.hand,
            final(self)@.dealt == old(self)@.dealt,
    {
        self.active = false;
    }

    /// Puts one given card into the hand.
    pub fn add_card(&mut self, card: Card)
        ensures
            final(self)@.hand == old(self)@.hand.insert(card),
            final(self)@.username == old(self)@.username,
            final(self)@.active == old(self)@.active,
            final(self)@.dealt == old(self)@.dealt,
    {
        self.hand.push(card);
    }

    /// Deals random cards into the hand until it holds `count` cards more than the player
    /// was dealt when created; none are taken away, and none are dealt when the hand holds
    /// that many already or `count` is not positive.
    /// Which cards come is left to chance; what is certain is that the old hand is kept and
    /// exactly the missing number of cards joins it.
    pub fn add_cards(&mut self, count: i64)
        ensures
            exists|drawn: Multiset<Card>|
                {
                    &&& drawn.len() == topped_up(old(self)@.hand.len(), old(self)@.dealt, count as int)
                        - old(self)@.hand.len()
                    &&& #[trigger] final(self)@.hand == old(self)@.hand.add(drawn)
                },
            final(self)@.hand.len() == topped_up(old(self)@.hand.len(), old(self)@.dealt, count as int),
            final(self)@.username == old(self)@.username,
            final(self)@.active == old(self)@.active,
            final(self)@.dealt == old(self)@.dealt,
    {
        let ghost start = self@;
        let ghost mut drawn: Multiset<Card> = Multiset::empty();
        proof {
            assert(start.hand.add(drawn) =~= start.hand);
        }
        if count > 0 {
            let wanted: u128 = self.dealt as u128 + count as u128;
            while (self.hand.len() as u128) < wanted
                invariant
                    count > 0,
                    wanted == start.dealt + count,
                    self.hand@.len() == self@.hand.len(),
                    start.hand.len() <= self@.hand.len(),
                    self@.hand.len() <= topped_up(start.hand.len(), start.dealt, count as int),
                    drawn.len() + start.hand.len() == self@.hand.len(),
                    self@.hand == start.hand.add(drawn),
                    self@.username == start.username,
                    self@.active == start.active,
                    self@.dealt == start.dealt,
                decreases wanted - self.hand.len(),
            {
                let card = Card::random();
                self.add_card(card);
                proof {
                    assert(start.hand.add(drawn).insert(card) =~= start.hand.add(drawn.insert(card)));
                    drawn = drawn.insert(card);
                }
            }
        }
    }

    /// Whether the hand holds at least one copy of `card`.
    pub fn has_card(&self, card: &Card) -> (held: bool)
        ensures
            held == self@.hand.contains(*card),
    {
        let mut i: usize = 0;
        while i < self.hand.len()
            invariant
                i <= self.hand.len(),
                forall|j: int| 0 <= j < i ==> self.hand@[j] != *card,
            decreases self.hand.len() - i,
        {
            if self.hand[i] == *card {
                proof {
                    assert(self.hand@.contains(*card));
                }
                return true;
            }
            i = i + 1;
        }
        false
    }

    /// Takes one copy of `card` out of the hand; does nothing when there is none.
    pub fn remove_card(&mut self, card: &Card)
        ensures
            final(self)@.hand == old(self)@.hand.remove(*card),
            final(self)@.username == old(self)@.username,
            final(self)@.active == old(self)@.active,
            final(self)@.dealt == old(self)@.dealt,
    {
        let mut i: usize = 0;
        while i < self.hand.len()
            invariant
                i <= self.hand.len(),
                self.hand@ == old(self).hand@,
                self.username == old(self).username,
                self.active == old(self).active,
                self.dealt == old(self).dealt,
                forall|j: int| 0 <= j < i ==> self.hand@[j] != *card,
            decreases self.hand.len() - i,
        {
            if self.hand[i] == *card {
                let ghost before = self.hand@;
                self.hand.remove(i);
                proof {
                    assert(before.remove(i as int) =~= self.hand@);
                }
                return;
            }
            i = i + 1;
        }
        proof {
            assert(!self.hand@.contains(*card));
            assert(old(self)@.hand.remove(*card) =~= old(self)@.hand);
        }
    }

    pub fn username(&self) -> (name: &str)
        ensures
            name@ == self@.username,
    {
        self.username.as_str()
    }

    /// The player's name.
    pub(crate) fn name(&self) -> (name: &String)
        ensures
            name@ == self@.username,
    {
        &self.username
    }

    /// The number of cards in the hand.
    pub fn hand_size(&self) -> (size: usize)
        ensures
            size == self@.hand.len(),
    {
        self.hand.len()
    }

    /// How many copies of `card` the hand holds.
    fn count_of(&self, card: Card) -> (n: usize)
        ensures
            n == self@.hand.count(card),
    {
        let mut n: usize = 0;
        let mut j: usize = 0;
        proof {
            assert(self.hand@.take(0) =~= Seq::<Card>::empty());
        }
        while j < self.hand.len()
            invariant
                j <= self.hand.len(),
                n == self.hand@.take(j as int).to_multiset().count(card),
                n <= j,
            decreases self.hand.len() - j,
        {
            proof {
                lemma_take_push(self.hand@, j as int);
            }
            if self.hand[j] == card {
                n = n + 1;
            }
            j = j + 1;
        }
        proof {
            assert(self.hand@.take(self.hand.len() as int) =~= self.hand@);
        }
        n
    }

    /// The cards in hand with their counts, one entry per card held, in listing order.
    pub fn hand(&self) -> (listing: Vec<(Card, i64)>)
        requires
            self@.hand.len() <= i64::MAX,
        ensures
            is_hand_listing(self@.hand, listing@),
    {
        let mut listing: Vec<(Card, i64)> = Vec::new();
        let mut i: usize = 0;
        while i < NUM_CARD_KINDS
            invariant
                i <= NUM_CARD_KINDS,
                self@.hand.len() <= i64::MAX,
                forall|k: int|
                    0 <= k < listing.len() ==> {
                        &&& listing@[k].1 > 0
                        &&& #[trigger] listing@[k].1 == self@.hand.count(listing@[k].0)
                        &&& card_index(listing@[k].0) < i
                    },
                forall|k: int| 0 <= k < listing.len() ==> card_index(#[trigger] listing@[k].0) < i,
                forall|c: Card|
                    self@.hand.count(c) > 0 && card_index(c) < i ==> exists|k: int|
                        0 <= k < listing.len() && #[trigger] listing@[k].0 == c,
                forall|j: int, k: int|
                    0 <= j < k < listing.len() ==> card_index(#[trigger] listing@[j].0)
                        < card_index(#[trigger] listing@[k].0),
            decreases NUM_CARD_KINDS - i,
        {
            let card = Card::at_index(i);
            let n = self.count_of(card);
            let ghost prev = listing@;
            if n > 0 {
                proof {
                    vstd::multiset::axiom_count_le_len(self@.hand, card);
                }
                let ghost before = listing@;
                listing.push((card, n as i64));
                proof {
                    assert(listing@ == before.push((card, n as i64)));
                    assert forall|j: int, k: int|
                        0 <= j < k < listing.len() implies card_index(#[trigger] listing@[j].0)
                        < card_index(#[trigger] listing@[k].0) by {
                        if k == before.len() {
                            assert(card_index(before[j].0) < i);
                        }
                    }
                }
            }
            proof {
                assert forall|c: Card| self@.hand.count(c) > 0 && card_index(c) < i + 1 implies exists|k: int|
                    0 <= k < listing.len() && #[trigger] listing@[k].0 == c by {
                    lemma_card_index_bijective(c, i as int);
                    if card_index(c) == i {
                        assert(c == card);
                        assert(listing@[listing.len() - 1].0 == c);
                    } else {
                        let k = choose|k: int| 0 <= k < prev.len() && #[trigger] prev[k].0 == c;
                        assert(listing@[k] == prev[k]);
                    }
                }
            }
            i = i + 1;
        }
        proof {
            assert forall|c: Card| self@.hand.count(c) > 0 implies exists|k: int|
                0 <= k < listing.len() && #[trigger] listing@[k].0 == c by {
                lemma_card_index_bijective(c, 0);
            }
        }
        listing
    }
}

} // verus!
