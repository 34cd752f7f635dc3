use crate::card::{Card, CardColor, ColorableType, ColorlessCard, NUM_COLORS};
use crate::invalid_action::InvalidAction;
use crate::player::{is_hand_listing, Player, PlayerView};
use crate::protocol::GameState;
use vstd::multiset::Multiset;
use vstd::prelude::*;

verus! {

broadcast use vstd::seq_lib::group_to_multiset_ensures, vstd::multiset::group_multiset_axioms;

/// The entry point for external code to handle games.
/// Provides high-level control and allows for player input,
/// without needing to know the rules of the game.
#[derive(Debug)]
pub struct Game {
    players: Vec<Player>,
    current_player: String,
    is_clockwise: bool,
    top_card: Card,
    winner: Option<String>,
    active_color: Option<CardColor>,
}

/// What a game is: the players in seat order, whose turn it is, the direction of play,
/// the card on the pile, the winner once there is one, and the color in force.
pub struct GameView {
    pub players: Seq<PlayerView>,
    pub current_player: Seq<char>,
    pub is_clockwise: bool,
    pub top_card: Card,
    pub winner: Option<Seq<char>>,
    pub active_color: Option<CardColor>,
}

impl View for Game {
    type V = GameView;

    closed spec fn view(&self) -> GameView {
        GameView {
            players: self.players@.map_values(|p: Player| p@),
            current_player: self.current_player@,
            is_clockwise: self.is_clockwise,
            top_card: self.top_card,
            winner: match self.winner {
                Some(w) => Some(w@),
                None => None,
            },
            active_color: self.active_color,
        }
    }
}

/// Some seat holds a player of this name.
pub open spec fn has_player(players: Seq<PlayerView>, name: Seq<char>) -> bool {
    exists|i: int| 0 <= i < players.len() && #[trigger] players[i].username == name
}

/// `i` is the first seat holding a player of this name.
pub open spec fn is_first_index(players: Seq<PlayerView>, name: Seq<char>, i: int) -> bool {
    &&& 0 <= i < players.len()
    &&& players[i].username == name
    &&& forall|j: int| 0 <= j < i ==> #[trigger] players[j].username != name
}

/// The first seat holding a player of this name, or -1 when there is none.
pub open spec fn index_of(players: Seq<PlayerView>, name: Seq<char>) -> int {
    if has_player(players, name) {
        choose|i: int| is_first_index(players, name, i)
    } else {
        -1
    }
}

/// The seat after seat `i` among `len` seats, going clockwise or counter-clockwise.
pub open spec fn next_index(len: int, i: int, clockwise: bool) -> int {
    if clockwise {
        (i + 1) % len
    } else {
        (i + len - 1) % len
    }
}

/// The seats with the hand of seat `i` replaced.
pub open spec fn with_hand(players: Seq<PlayerView>, i: int, hand: Multiset<Card>) -> Seq<PlayerView> {
    players.update(i, PlayerView { hand, ..players[i] })
}

/// Whether `query` may be played on `top` while `active` is the color in force: two colored
/// cards must share color or face; a wild card goes on a colored card and on a wild card;
/// a colored card goes on a wild card when it has the color in force, or when none is.
pub open spec fn can_play(top: Card, active: Option<CardColor>, query: Card) -> bool {
    match (top, query) {
        (Card::Colored(top_color, top_face), Card::Colored(color, face)) => top_color == color
            || top_face == face,
        (Card::Colored(_, _), Card::Colorless(_)) => true,
        (Card::Colorless(_), Card::Colored(color, _)) => match active {
            Some(a) => color == a,
            None => true,
        },
        (Card::Colorless(_), Card::Colorless(_)) => true,
    }
}

/// How many cards the next player must take when `card` is played.
pub open spec fn penalty_count(card: Card) -> nat {
    match card {
        Card::Colored(_, ColorableType::PlusThree) => 3,
        Card::Colorless(ColorlessCard::RandomPlusSix) => 6,
        _ => 0,
    }
}

impl GameView {
    /// A game is well formed when it has a player and the turn belongs to one of them.
    pub open spec fn wf(self) -> bool {
        self.players.len() > 0 && has_player(self.players, self.current_player)
    }

    /// The game with the turn passed on from the current player to the next seat in the
    /// direction of play.
    pub open spec fn advanced(self) -> GameView {
        GameView {
            current_player: self.players[next_index(
                self.players.len() as int,
                index_of(self.players, self.current_player),
                self.is_clockwise,
            )].username,
            ..self
        }
    }

    /// Why `player` may not draw, if they may not: the game is over, they are not in it,
    /// or it is not their turn.
    pub open spec fn draw_check(self, player: Seq<char>) -> Result<(), InvalidAction> {
        if self.winner is Some {
            Err(InvalidAction::GameIsOver)
        } else if !has_player(self.players, player) {
            Err(InvalidAction::UnknownUsername)
        } else if self.current_player != player {
            Err(InvalidAction::NotPlayerTurn)
        } else {
            Ok(())
        }
    }

    /// Why `player` may not play `card`, if they may not: the reasons of `draw_check`, then
    /// that the card is not in their hand, then that it does not fit on the pile.
    pub open spec fn play_check(self, player: Seq<char>, card: Card) -> Result<(), InvalidAction> {
        match self.draw_check(player) {
            Err(e) => Err(e),
            Ok(_) => if !self.players[index_of(self.players, player)].hand.contains(card) {
                Err(InvalidAction::CardNotInHand)
            } else if !can_play(self.top_card, self.active_color, card) {
                Err(InvalidAction::CannotPlayCard)
            } else {
                Ok(())
            },
        }
    }

    /// The game after `player` draws `card`: the card joins their hand and the turn passes.
    pub open spec fn drawn(self, player: Seq<char>, card: Card) -> GameView {
        let i = index_of(self.players, player);
        GameView {
            players: with_hand(self.players, i, self.players[i].hand.insert(card)),
            ..self
        }.advanced()
    }

    /// The effect of `card`, played from seat `i`: +3 and wild +6 deal the penalty cards to
    /// the next seat and skip it, skip skips the next seat, reverse turns the direction.
    pub open spec fn with_effect(self, i: int, card: Card, penalty: Seq<Card>) -> GameView {
        match card {
            Card::Colored(_, ColorableType::PlusThree) | Card::Colorless(
                ColorlessCard::RandomPlusSix,
            ) => {
                let n = next_index(self.players.len() as int, i, self.is_clockwise);
                GameView {
                    players: with_hand(
                        self.players,
                        n,
                        self.players[n].hand.add(penalty.to_multiset()),
                    ),
                    ..self
                }.advanced()
            },
            Card::Colored(_, ColorableType::Skip) => self.advanced(),
            Card::Colored(_, ColorableType::Reverse) => GameView {
                is_clockwise: !self.is_clockwise,
                ..self
            },
            _ => self,
        }
    }

    /// The game after `player` plays `card`: the color in force becomes the card's color
    /// (`wild_color` for a wild card), the card leaves the hand and tops the pile, its
    /// effect applies (with `penalty` as the cards dealt), the player wins when the hand
    /// is then empty, and the turn passes.
    pub open spec fn played(
        self,
        player: Seq<char>,
        card: Card,
        wild_color: CardColor,
        penalty: Seq<Card>,
    ) -> GameView {
        let i = index_of(self.players, player);
        let placed = GameView {
            players: with_hand(self.players, i, self.players[i].hand.remove(card)),
            top_card: card,
            active_color: Some(
                match card {
                    Card::Colorless(_) => wild_color,
                    Card::Colored(color, _) => color,
                },
            ),
            ..self
        };
        let effected = placed.with_effect(i, card, penalty);
        let judged = if effected.players[i].hand.len() == 0 {
            GameView { winner: Some(player), ..effected }
        } else {
            effected
        };
        judged.advanced()
    }
}

impl GameView {
    /// `state` is what `player` is shown of this game: the shared table, every player's
    /// name and card count in seat order, and `player`'s own hand as a listing.
    pub open spec fn shown_as(self, player: Seq<char>, state: GameState) -> bool {
        &&& state.current_player@ == self.current_player
        &&& state.is_clockwise == self.is_clockwise
        &&& state.top_card == self.top_card
        &&& match state.winner {
            Some(w) => self.winner == Some(w@),
            None => self.winner is None,
        }
        &&& state.active_color == self.active_color
        &&& state.card_counts@.len() == self.players.len()
        &&& forall|i: int|
            0 <= i < self.players.len() ==> {
                &&& (#[trigger] state.card_counts@[i]).0@ == self.players[i].username
                &&& state.card_counts@[i].1 == self.players[i].hand.len()
            }
        &&& state.player_order@.len() == self.players.len()
        &&& forall|i: int|
            0 <= i < self.players.len() ==> (#[trigger] state.player_order@[i])@
                == self.players[i].username
        &&& is_hand_listing(self.players[index_of(self.players, player)].hand, state.hand@)
    }

    /// Every hand's size fits in an `i64`, as the counts shown to players are.
    pub open spec fn counts_fit(self) -> bool {
        forall|i: int| 0 <= i < self.players.len() ==> #[trigger] self.players[i].hand.len() <= i64::MAX
    }
}

impl GameView {
    /// `after` and `result` are a possible outcome of `player` playing `card` on this game:
    /// the result is `play_check`, a refused play changes nothing, and an accepted one leaves
    /// the game `played` for some wild color and some penalty cards of the right number.
    pub open spec fn play_outcome(self, after: GameView, player: Seq<char>, card: Card, result: Result<(), InvalidAction>) -> bool {
        &&& result == self.play_check(player, card)
        &&& result is Err ==> after == self
        &&& result is Ok ==> exists|wild_color: CardColor, penalty: Seq<Card>|
            {
                &&& penalty.len() == penalty_count(card)
                &&& #[trigger] self.played(player, card, wild_color, penalty) == after
            }
    }

    /// `after` and `result` are a possible outcome of `player` drawing a card: the result is
    /// `draw_check`, a refused draw changes nothing, and an accepted one leaves the game
    /// `drawn` for some card.
    pub open spec fn draw_outcome(self, after: GameView, player: Seq<char>, result: Result<(), InvalidAction>) -> bool {
        &&& result == self.draw_check(player)
        &&& result is Err ==> after == self
        &&& result is Ok ==> exists|card: Card| #[trigger] self.drawn(player, card) == after
    }
}

/// Two first seats of the same name are the same seat.
pub proof fn lemma_first_index_unique(players: Seq<PlayerView>, name: Seq<char>, i: int, j: int)
    requires
        is_first_index(players, name, i),
        is_first_index(players, name, j),
    ensures
        i == j,
{
    if i < j {
        assert(players[i].username != name);
    } else if j < i {
        assert(players[j].username != name);
    }
}

proof fn lemma_first_index_exists(players: Seq<PlayerView>, name: Seq<char>, i: int)
    requires
        0 <= i < players.len(),
        players[i].username == name,
    ensures
        exists|k: int| is_first_index(players, name, k),
    decreases i,
{
    if exists|j: int| 0 <= j < i && #[trigger] players[j].username == name {
        let j = choose|j: int| 0 <= j < i && #[trigger] players[j].username == name;
        lemma_first_index_exists(players, name, j);
    } else {
        assert(is_first_index(players, name, i));
    }
}

/// When some seat holds the name, `index_of` is the first such seat.
pub proof fn lemma_index_of(players: Seq<PlayerView>, name: Seq<char>)
    ensures
        has_player(players, name) ==> is_first_index(players, name, index_of(players, name)),
        !has_player(players, name) ==> index_of(players, name) == -1,
{
    if has_player(players, name) {
        let i = choose|i: int| 0 <= i < players.len() && #[trigger] players[i].username == name;
        lemma_first_index_exists(players, name, i);
    }
}

/// Seats with the same names in the same places give the same `index_of`.
pub proof fn lemma_same_names(a: Seq<PlayerView>, b: Seq<PlayerView>, name: Seq<char>)
    requires
        a.len() == b.len(),
        forall|k: int| 0 <= k < a.len() ==> #[trigger] a[k].username == b[k].username,
    ensures
        has_player(a, name) == has_player(b, name),
        index_of(a, name) == index_of(b, name),
{
    lemma_index_of(a, name);
    lemma_index_of(b, name);
    if has_player(a, name) {
        let i = index_of(a, name);
        assert(b[i].username == name);
        assert(has_player(b, name));
        assert forall|j: int| 0 <= j < i implies #[trigger] b[j].username != name by {
            assert(a[j].username == b[j].username);
        }
        assert(is_first_index(b, name, i));
        lemma_first_index_unique(b, name, i, index_of(b, name));
    } else if has_player(b, name) {
        let i = index_of(b, name);
        assert(a[i].username == name);
    }
}

proof fn lemma_with_hand_names(players: Seq<PlayerView>, i: int, hand: Multiset<Card>, name: Seq<char>)
    requires
        0 <= i < players.len(),
    ensures
        has_player(with_hand(players, i, hand), name) == has_player(players, name),
        index_of(with_hand(players, i, hand), name) == index_of(players, name),
        with_hand(players, i, hand).len() == players.len(),
{
    lemma_same_names(players, with_hand(players, i, hand), name);
}

impl Game {
    /// A game among the given players, each dealt `starting_hand_size` random cards, with a
    /// random card on the pile; the first listed player begins, play goes clockwise, and
    /// no color is in force yet. The list must not be empty.
    pub fn new(players: &Vec<String>, starting_hand_size: i64) -> (game: Option<Self>)
        requires
            players.len() > 0,
        ensures
            game matches Some(g) && {
                &&& g@.wf()
                &&& g@.players.len() == players.len()
                &&& forall|i: int|
                    0 <= i < players.len() ==> {
                        &&& #[trigger] g@.players[i].username == players[i]@
                        &&& g@.players[i].active
                        &&& g@.players[i].hand.len() == if starting_hand_size > 0 {
                            starting_hand_size as int
                        } else {
                            0
                        }
                    }
                &&& g@.current_player == players[0]@
                &&& g@.is_clockwise
                &&& g@.winner is None
                &&& g@.active_color is None
            },
    {
        let mut seats: Vec<Player> = Vec::new();
        let mut i: usize = 0;
        while i < players.len()
            invariant
                i <= players.len(),
                seats.len() == i,
                forall|k: int|
                    0 <= k < i ==> {
                        &&& #[trigger] seats@[k]@.username == players[k]@
                        &&& seats@[k]@.active
                        &&& seats@[k]@.hand.len() == if starting_hand_size > 0 {
                            starting_hand_size as int
                        } else {
                            0
                        }
                    },
            decreases players.len() - i,
        {
            seats.push(Player::new(players[i].clone(), starting_hand_size));
            i = i + 1;
        }
        let game = Self {
            players: seats,
            current_player: players[0].clone(),
            is_clockwise: true,
            top_card: Card::random(),
            winner: None,
            active_color: None,
        };
        proof {
            assert(game@.players[0].username == players[0]@);
        }
        Some(game)
    }

    /// Whether `query_card` may be played on `top_card` while `active_color` is in force.
    pub fn can_play_card(top_card: &Card, active_color: &Option<CardColor>, query_card: &Card) -> (playable: bool)
        ensures
            playable == can_play(*top_card, *active_color, *query_card),
    {
        match (top_card, query_card) {
            // For two colored cards, allow play if either the color or type matches.
            (Card::Colored(top_color, top_type), Card::Colored(card_color, card_type)) => {
                *top_color == *card_color || *top_type == *card_type
            },
            // A colorless card (wild) can be played on any colored card.
            (Card::Colored(_, _), Card::Colorless(_)) => true,
            // When the top card is wild, use the active color for validation.
            (Card::Colorless(_), Card::Colored(card_color, _)) => {
                match active_color {
                    Some(active) => *card_color == *active,
                    None => true,
                }
            },
            (Card::Colorless(_), Card::Colorless(_)) => true,
        }
    }

    /// How many cards the next player must take when `card` is played.
    pub fn penalty_count(card: &Card) -> (n: usize)
        ensures
            n == penalty_count(*card),
    {
        match card {
            Card::Colored(_, ColorableType::PlusThree) => 3,
            Card::Colorless(ColorlessCard::RandomPlusSix) => 6,
            _ => 0,
        }
    }

    fn find_player_index(&self, username: &String) -> (index: Option<usize>)
        ensures
            match index {
                Some(i) => is_first_index(self@.players, username@, i as int),
                None => !has_player(self@.players, username@),
            },
    {
        let mut i: usize = 0;
        while i < self.players.len()
            invariant
                i <= self.players.len(),
                forall|j: int| 0 <= j < i ==> #[trigger] self@.players[j].username != username@,
            decreases self.players.len() - i,
        {
            proof {
                assert(self@.players[i as int] == self.players@[i as int]@);
            }
            if *self.players[i].name() == *username {
                return Some(i);
            }
            i = i + 1;
        }
        None
    }

    fn next_player_index(&self, current_index: usize) -> (next: usize)
        requires
            current_index < self.players.len(),
        ensures
            next == next_index(self@.players.len() as int, current_index as int, self.is_clockwise),
            next < self.players.len(),
    {
        let total = self.players.len();
        proof {
            let len = total as int;
            let i = current_index as int;
            vstd::arithmetic::div_mod::lemma_mod_self_0(len);
            if i + 1 < len {
                vstd::arithmetic::div_mod::lemma_small_mod((i + 1) as nat, len as nat);
            }
            if i > 0 {
                vstd::arithmetic::div_mod::lemma_small_mod((i - 1) as nat, len as nat);
                vstd::arithmetic::div_mod::lemma_mod_add_multiples_vanish(i - 1, len);
            } else {
                vstd::arithmetic::div_mod::lemma_small_mod((len - 1) as nat, len as nat);
            }
        }
        if self.is_clockwise {
            if current_index + 1 == total {
                0
            } else {
                current_index + 1
            }
        } else {
            if current_index == 0 {
                total - 1
            } else {
                current_index - 1
            }
        }
    }

    fn advance_turn(&mut self)
        requires
            old(self)@.wf(),
        ensures
            final(self)@ == old(self)@.advanced(),
            final(self)@.wf(),
    {
        proof {
            lemma_index_of(self@.players, self@.current_player);
        }
        let current_index = self.find_player_index(&self.current_player).unwrap();
        proof {
            lemma_first_index_unique(
                self@.players,
                self@.current_player,
                current_index as int,
                index_of(self@.players, self@.current_player),
            );
        }
        let next_index = self.next_player_index(current_index);
        self.current_player = self.players[next_index].name().clone();
        proof {
            assert(self@.players[next_index as int].username == self@.current_player);
            assert(self@ == old(self)@.advanced());
        }
    }

    fn can_play_on_top(&self, card: &Card) -> (playable: bool)
        ensures
            playable == can_play(self@.top_card, self@.active_color, *card),
    {
        Self::can_play_card(&self.top_card, &self.active_color, card)
    }

    /// Puts the given cards into the hand of seat `i`.
    fn deal_cards(&mut self, i: usize, cards: &Vec<Card>)
        requires
            i < old(self)@.players.len(),
        ensures
            final(self)@ == (GameView {
                players: with_hand(
                    old(self)@.players,
                    i as int,
                    old(self)@.players[i as int].hand.add(cards@.to_multiset()),
                ),
                ..old(self)@
            }),
    {
        let ghost start = self@;
        let mut player = self.players.remove(i);
        let mut j: usize = 0;
        proof {
            assert(cards@.take(0) =~= Seq::<Card>::empty());
            assert(player@.hand.add(cards@.take(0).to_multiset()) =~= player@.hand);
        }
        while j < cards.len()
            invariant
                j <= cards.len(),
                player@.hand == start.players[i as int].hand.add(cards@.take(j as int).to_multiset()),
                player@.username == start.players[i as int].username,
                player@.active == start.players[i as int].active,
                player@.dealt == start.players[i as int].dealt,
            decreases cards.len() - j,
        {
            player.add_card(cards[j]);
            proof {
                assert(cards@.take(j + 1) =~= cards@.take(j as int).push(cards@[j as int]));
                assert(start.players[i as int].hand.add(cards@.take(j as int).to_multiset()).insert(
                    cards@[j as int],
                ) =~= start.players[i as int].hand.add(cards@.take(j + 1).to_multiset()));
            }
            j = j + 1;
        }
        self.players.insert(i, player);
        proof {
            assert(cards@.take(cards.len() as int) =~= cards@);
            assert(self@.players =~= with_hand(
                start.players,
                i as int,
                start.players[i as int].hand.add(cards@.to_multiset()),
            ));
        }
    }

    /// Puts one card into the hand of seat `i`.
    fn deal_card(&mut self, i: usize, card: Card)
        requires
            i < old(self)@.players.len(),
        ensures
            final(self)@ == (GameView {
                players: with_hand(old(self)@.players, i as int, old(self)@.players[i as int].hand.insert(card)),
                ..old(self)@
            }),
    {
        let ghost start = self@;
        let mut player = self.players.remove(i);
        player.add_card(card);
        self.players.insert(i, player);
        proof {
            assert(self@.players =~= with_hand(
                start.players,
                i as int,
                start.players[i as int].hand.insert(card),
            ));
        }
    }

    /// Takes one copy of `card` out of the hand of seat `i`.
    fn take_card(&mut self, i: usize, card: &Card)
        requires
            i < old(self)@.players.len(),
        ensures
            final(self)@ == (GameView {
                players: with_hand(old(self)@.players, i as int, old(self)@.players[i as int].hand.remove(*card)),
                ..old(self)@
            }),
    {
        let ghost start = self@;
        let mut player = self.players.remove(i);
        player.remove_card(card);
        self.players.insert(i, player);
        proof {
            assert(self@.players =~= with_hand(
                start.players,
                i as int,
                start.players[i as int].hand.remove(*card),
            ));
        }
    }

    fn apply_special_card_effect(&mut self, player_index: usize, card: &Card, penalty: &Vec<Card>)
        requires
            old(self)@.wf(),
            player_index < old(self)@.players.len(),
        ensures
            final(self)@ == old(self)@.with_effect(player_index as int, *card, penalty@),
            final(self)@.wf(),
            final(self)@.players.len() == old(self)@.players.len(),
            forall|k: int|
                0 <= k < old(self)@.players.len() ==> #[trigger] final(self)@.players[k].username
                    == old(self)@.players[k].username,
    {
        let ghost start = self@;
        match card {
            // PlusThree: the next player takes the penalty cards and their turn is skipped.
            Card::Colored(_, ColorableType::PlusThree) => {
                let next_idx = self.next_player_index(player_index);
                self.deal_cards(next_idx, penalty);
                proof {
                    lemma_with_hand_names(start.players, next_idx as int, self@.players[next_idx as int].hand, start.current_player);
                }
                self.advance_turn();
            },
            // Skip: skip the next player's turn.
            Card::Colored(_, ColorableType::Skip) => {
                self.advance_turn();
            },
            // Reverse: reverse the play order.
            Card::Colored(_, ColorableType::Reverse) => {
                self.is_clockwise = !self.is_clockwise;
            },
            // For wild cards (colorless Random), no extra turn advancement is done here.
            Card::Colorless(ColorlessCard::Random) => {},
            // RandomPlusSix: the next player takes the penalty cards and their turn is skipped.
            Card::Colorless(ColorlessCard::RandomPlusSix) => {
                let next_idx = self.next_player_index(player_index);
                self.deal_cards(next_idx, penalty);
                proof {
                    lemma_with_hand_names(start.players, next_idx as int, self@.players[next_idx as int].hand, start.current_player);
                }
                self.advance_turn();
            },
            _ => {},
        }
    }

    /// `player` plays `card`, with `wild_color` as the color chosen for a wild card and
    /// `penalty` as the cards the next player takes for a +3 or a wild +6.
    /// The result is `play_check`; a refused play changes nothing, an accepted one leaves
    /// the game `played`.
    pub fn play_card_with(
        &mut self,
        player: &String,
        card: &Card,
        wild_color: CardColor,
        penalty: &Vec<Card>,
    ) -> (result: Result<(), InvalidAction>)
        requires
            old(self)@.wf(),
            penalty.len() == penalty_count(*card),
        ensures
            result == old(self)@.play_check(player@, *card),
            result is Ok ==> final(self)@ == old(self)@.played(player@, *card, wild_color, penalty@),
            result is Err ==> final(self)@ == old(self)@,
            final(self)@.wf(),
    {
        let ghost start = self@;
        if self.winner.is_some() {
            return Err(InvalidAction::GameIsOver);
        }
        let player_index = match self.find_player_index(player) {
            Some(i) => i,
            None => {
                return Err(InvalidAction::UnknownUsername);
            },
        };
        proof {
            lemma_index_of(start.players, player@);
            lemma_first_index_unique(start.players, player@, player_index as int, index_of(start.players, player@));
        }
        if !(self.current_player == *player) {
            return Err(InvalidAction::NotPlayerTurn);
        }
        // The player must have the card in hand.
        proof {
            assert(self@.players[player_index as int] == self.players@[player_index as int]@);
        }
        if !self.players[player_index].has_card(card) {
            return Err(InvalidAction::CardNotInHand);
        }
        // Validate if the card can be played on top of the current top card.
        if !self.can_play_on_top(card) {
            return Err(InvalidAction::CannotPlayCard);
        }
        // A wild card takes the chosen color; a colored card sets its own color.
        match card {
            Card::Colorless(_) => {
                self.active_color = Some(wild_color);
            },
            Card::Colored(color, _) => {
                self.active_color = Some(*color);
            },
        }
        // Remove the card from the player's hand and update the top card.
        self.take_card(player_index, card);
        self.top_card = *card;
        let ghost placed = self@;
        proof {
            lemma_with_hand_names(start.players, player_index as int, placed.players[player_index as int].hand, start.current_player);
            assert(placed.wf());
        }
        self.apply_special_card_effect(player_index, card, penalty);
        // Check for a winner.
        proof {
            assert(self@.players[player_index as int] == self.players@[player_index as int]@);
        }
        if self.players[player_index].hand_size() == 0 {
            self.winner = Some(player.clone());
        }
        self.advance_turn();
        Ok(())
    }

    /// `player` plays `card`. A wild card sets a random color, and the cards dealt for a +3
    /// or a wild +6 are random. The result is `play_check`; a refused play changes nothing;
    /// an accepted one leaves the game `played` for some color and some penalty cards of the
    /// right number.
    pub fn play_card(&mut self, player: &String, card: &Card) -> (result: Result<(), InvalidAction>)
        requires
            old(self)@.wf(),
        ensures
            old(self)@.play_outcome(final(self)@, player@, *card, result),
            final(self)@.wf(),
    {
        let mut rng = crate::random::thread_rng();
        let wild_color = CardColor::from_roll(crate::random::gen_below(&mut rng, NUM_COLORS));
        let count = Self::penalty_count(card);
        let mut penalty: Vec<Card> = Vec::new();
        while penalty.len() < count
            invariant
                penalty.len() <= count,
            decreases count - penalty.len(),
        {
            penalty.push(Card::random());
        }
        self.play_card_with(player, card, wild_color, &penalty)
    }

    /// `player` draws the given card. The result is `draw_check`; a refused draw changes
    /// nothing, an accepted one leaves the game `drawn`.
    pub fn draw_card_with(&mut self, player: &String, card: Card) -> (result: Result<(), InvalidAction>)
        requires
            old(self)@.wf(),
        ensures
            result == old(self)@.draw_check(player@),
            result is Ok ==> final(self)@ == old(self)@.drawn(player@, card),
            result is Err ==> final(self)@ == old(self)@,
            final(self)@.wf(),
    {
        let ghost start = self@;
        if self.winner.is_some() {
            return Err(InvalidAction::GameIsOver);
        }
        let player_index = match self.find_player_index(player) {
            Some(i) => i,
            None => {
                return Err(InvalidAction::UnknownUsername);
            },
        };
        proof {
            lemma_index_of(start.players, player@);
            lemma_first_index_unique(start.players, player@, player_index as int, index_of(start.players, player@));
        }
        // Ensure it is the player's turn.
        if !(self.current_player == *player) {
            return Err(InvalidAction::NotPlayerTurn);
        }
        self.deal_card(player_index, card);
        proof {
            lemma_with_hand_names(start.players, player_index as int, self@.players[player_index as int].hand, start.current_player);
        }
        self.advance_turn();
        Ok(())
    }

    /// `player` draws a random card. The result is `draw_check`; a refused draw changes
    /// nothing, an accepted one leaves the game `drawn` for some card.
    pub fn draw_card(&mut self, player: &String) -> (result: Result<(), InvalidAction>)
        requires
            old(self)@.wf(),
        ensures
            old(self)@.draw_outcome(final(self)@, player@, result),
            final(self)@.wf(),
    {
        let card = Card::random();
        self.draw_card_with(player, card)
    }

    /// Returns the game state for this player
    /// Returns None if the player is not in the game
    pub fn get_player_game_state(&self, player: &String) -> (state: Option<GameState>)
        requires
            self@.counts_fit(),
        ensures
            state is None <==> !has_player(self@.players, player@),
            state matches Some(s) ==> self@.shown_as(player@, s),
    {
        let player_idx = match self.find_player_index(player) {
            Some(i) => i,
            None => {
                return None;
            },
        };
        proof {
            lemma_index_of(self@.players, player@);
            lemma_first_index_unique(self@.players, player@, player_idx as int, index_of(self@.players, player@));
        }
        let mut card_counts: Vec<(String, i64)> = Vec::new();
        let mut player_order: Vec<String> = Vec::new();
        let mut i: usize = 0;
        while i < self.players.len()
            invariant
                i <= self.players.len(),
                self@.counts_fit(),
                card_counts.len() == i,
                player_order.len() == i,
                forall|k: int|
                    0 <= k < i ==> {
                        &&& (#[trigger] card_counts@[k]).0@ == self@.players[k].username
                        &&& card_counts@[k].1 == self@.players[k].hand.len()
                    },
                forall|k: int| 0 <= k < i ==> (#[trigger] player_order@[k])@ == self@.players[k].username,
            decreases self.players.len() - i,
        {
            proof {
                assert(self@.players[i as int] == self.players@[i as int]@);
            }
            let size = self.players[i].hand_size();
            card_counts.push((self.players[i].name().clone(), size as i64));
            player_order.push(self.players[i].name().clone());
            i = i + 1;
        }
        proof {
            assert(self@.players[player_idx as int] == self.players@[player_idx as int]@);
        }
        let winner = match &self.winner {
            Some(w) => Some(w.clone()),
            None => None,
        };
        Some(GameState {
            current_player: self.current_player.clone(),
            is_clockwise: self.is_clockwise,
            top_card: self.top_card,
            winner,
            active_color: self.active_color,
            card_counts,
            player_order,
            hand: self.players[player_idx].hand(),
        })
    }

    /// A game in a given position: the players in seat order, whose turn it is, the
    /// direction, the card on the pile, the winner (if any) and the color in force.
    /// The turn must belong to one of the players.
    pub fn from_parts(
        players: Vec<Player>,
        current_player: String,
        is_clockwise: bool,
        top_card: Card,
        winner: Option<String>,
        active_color: Option<CardColor>,
    ) -> (game: Game)
        requires
            exists|i: int| 0 <= i < players.len() && (#[trigger] players@[i])@.username == current_player@,
        ensures
            game@.wf(),
            game@.players == players@.map_values(|p: Player| p@),
            game@.current_player == current_player@,
            game@.is_clockwise == is_clockwise,
            game@.top_card == top_card,
            game@.winner == match winner {
                Some(w) => Some(w@),
                None => None::<Seq<char>>,
            },
            game@.active_color == active_color,
    {
        let game = Game { players, current_player, is_clockwise, top_card, winner, active_color };
        proof {
            let i = choose|i: int| 0 <= i < game.players.len() && (#[trigger] game.players@[i])@.username == game.current_player@;
            assert(game@.players[i].username == game@.current_player);
        }
        game
    }

    /// The players in seat order.
    pub fn players(&self) -> (players: &Vec<Player>)
        ensures
            players@.map_values(|p: Player| p@) == self@.players,
    {
        &self.players
    }

    /// The name of the player whose turn it is.
    pub fn current_player(&self) -> (name: &str)
        ensures
            name@ == self@.current_player,
    {
        self.current_player.as_str()
    }

    /// Whether play goes clockwise.
    pub fn is_clockwise(&self) -> (clockwise: bool)
        ensures
            clockwise == self@.is_clockwise,
    {
        self.is_clockwise
    }

    /// The card on top of the pile.
    pub fn top_card(&self) -> (card: Card)
        ensures
            card == self@.top_card,
    {
        self.top_card
    }

    /// The color in force.
    pub fn active_color(&self) -> (color: Option<CardColor>)
        ensures
            color == self@.active_color,
    {
        self.active_color
    }

    /// The winner, once there is one.
    pub fn winner(&self) -> (winner: Option<&str>)
        ensures
            match winner {
                Some(w) => self@.winner == Some(w@),
                None => self@.winner is None,
            },
    {
        match &self.winner {
            Some(w) => Some(w.as_str()),
            None => None,
        }
    }

    /// Whether every hand's size fits in an `i64`, as the counts shown to players must.
    pub fn counts_fit(&self) -> (fit: bool)
        ensures
            fit == self@.counts_fit(),
    {
        let mut i: usize = 0;
        while i < self.players.len()
            invariant
                i <= self.players.len(),
                forall|k: int| 0 <= k < i ==> #[trigger] self@.players[k].hand.len() <= i64::MAX,
            decreases self.players.len() - i,
        {
            proof {
                assert(self@.players[i as int] == self.players@[i as int]@);
            }
            if self.players[i].hand_size() as u64 > i64::MAX as u64 {
                return false;
            }
            i = i + 1;
        }
        true
    }
}

} // verus!
