//! Properties of the library that span several calls or hold of every state.
use crate::card::{card_of_draws, Card, CardColor, ColorableType, ColorlessCard, FACE_ROLLS, NUM_COLORS};
use crate::debug_cli::{card_name, color_prefix};
use crate::game::{
    can_play, has_player, index_of, is_first_index, lemma_first_index_unique, lemma_index_of, lemma_same_names,
    next_index, penalty_count, with_hand, GameView,
};
use crate::invalid_action::InvalidAction;
use crate::player::PlayerView;
use crate::server::{user_of, ServerView};
use vstd::multiset::Multiset;
use vstd::prelude::*;

verus! {

broadcast use vstd::seq_lib::group_to_multiset_ensures, vstd::multiset::group_multiset_axioms;

/// No two seats hold players of the same name.
pub open spec fn distinct_names(players: Seq<PlayerView>) -> bool {
    forall|i: int, j: int|
        0 <= i < players.len() && 0 <= j < players.len() && i != j ==> #[trigger] players[i].username
            != #[trigger] players[j].username
}

/// With distinct names, the seat of a name is the seat that holds it.
pub proof fn lemma_index_of_seat(players: Seq<PlayerView>, k: int)
    requires
        distinct_names(players),
        0 <= k < players.len(),
    ensures
        index_of(players, players[k].username) == k,
{
    let name = players[k].username;
    assert(is_first_index(players, name, k));
    lemma_index_of(players, name);
    lemma_first_index_unique(players, name, k, index_of(players, name));
}

/// A wild card can be played on any card, whatever color is in force; a colored card can be
/// played on a colored card of its color or of its face.
pub proof fn law_playable_cards(top: Card, active: Option<CardColor>, wild: ColorlessCard, color: CardColor, face: ColorableType)
    ensures
        can_play(top, active, Card::Colorless(wild)),
        can_play(Card::Colored(color, face), active, Card::Colored(color, ColorableType::Zero)),
        can_play(Card::Colored(CardColor::Orange, face), active, Card::Colored(color, face)),
{
}

/// Once a game has a winner it is over: every play and every draw is refused with
/// `GameIsOver`.
pub proof fn law_game_over_is_final(g: GameView, player: Seq<char>, card: Card)
    requires
        g.winner is Some,
    ensures
        g.draw_check(player) == Err::<(), InvalidAction>(InvalidAction::GameIsOver),
        g.play_check(player, card) == Err::<(), InvalidAction>(InvalidAction::GameIsOver),
{
}

/// Only the player whose turn it is may act: anyone else in the game is refused with
/// `NotPlayerTurn` (unless the game is over).
pub proof fn law_only_current_player_acts(g: GameView, player: Seq<char>, card: Card)
    requires
        g.winner is None,
        crate::game::has_player(g.players, player),
        player != g.current_player,
    ensures
        g.draw_check(player) == Err::<(), InvalidAction>(InvalidAction::NotPlayerTurn),
        g.play_check(player, card) == Err::<(), InvalidAction>(InvalidAction::NotPlayerTurn),
{
}

/// Drawing gives the drawer exactly the drawn card, leaves every other hand alone, and passes
/// the turn to the next seat in the direction of play.
pub proof fn law_draw(g: GameView, player: Seq<char>, card: Card)
    requires
        g.wf(),
        g.draw_check(player) is Ok,
    ensures
        ({
            let i = index_of(g.players, player);
            let after = g.drawn(player, card);
            &&& after.players[i].hand == g.players[i].hand.insert(card)
            &&& after.players[i].hand.len() == g.players[i].hand.len() + 1
            &&& forall|k: int| 0 <= k < g.players.len() && k != i ==> #[trigger] after.players[k] == g.players[k]
            &&& after.current_player == g.players[next_index(g.players.len() as int, i, g.is_clockwise)].username
            &&& after.top_card == g.top_card
            &&& after.active_color == g.active_color
            &&& after.is_clockwise == g.is_clockwise
        }),
{
    let i = index_of(g.players, player);
    lemma_index_of(g.players, player);
    let hand = g.players[i].hand.insert(card);
    lemma_same_names(g.players, with_hand(g.players, i, hand), player);
}

/// Who plays next after an accepted play (names being distinct): skip, +3 and wild +6 pass
/// over the next seat, reverse turns the direction and hands the turn to the seat on the
/// other side, and any other card hands it to the next seat. The card tops the pile and
/// sets the color in force.
pub proof fn law_play_turn_order(g: GameView, player: Seq<char>, card: Card, wild_color: CardColor, penalty: Seq<Card>)
    requires
        g.wf(),
        distinct_names(g.players),
        g.play_check(player, card) is Ok,
        penalty.len() == penalty_count(card),
    ensures
        ({
            let i = index_of(g.players, player);
            let len = g.players.len() as int;
            let cw = g.is_clockwise;
            let after = g.played(player, card, wild_color, penalty);
            &&& after.top_card == card
            &&& after.active_color == Some(
                match card {
                    Card::Colorless(_) => wild_color,
                    Card::Colored(color, _) => color,
                },
            )
            &&& match card {
                Card::Colored(_, ColorableType::Skip) | Card::Colored(_, ColorableType::PlusThree)
                | Card::Colorless(ColorlessCard::RandomPlusSix) => {
                    &&& after.current_player == g.players[next_index(len, next_index(len, i, cw), cw)].username
                    &&& after.is_clockwise == cw
                },
                Card::Colored(_, ColorableType::Reverse) => {
                    &&& after.current_player == g.players[next_index(len, i, !cw)].username
                    &&& after.is_clockwise == !cw
                },
                _ => {
                    &&& after.current_player == g.players[next_index(len, i, cw)].username
                    &&& after.is_clockwise == cw
                },
            }
        }),
{
    let i = index_of(g.players, player);
    let len = g.players.len() as int;
    let cw = g.is_clockwise;
    lemma_index_of(g.players, player);
    lemma_next_in_range(len, i, cw);
    lemma_next_in_range(len, i, !cw);
    let n = next_index(len, i, cw);
    lemma_next_in_range(len, n, cw);
    let placed_players = with_hand(g.players, i, g.players[i].hand.remove(card));
    lemma_same_names(g.players, placed_players, player);
    lemma_same_names(g.players, placed_players, g.players[n].username);
    lemma_same_names(g.players, placed_players, g.players[next_index(len, i, !cw)].username);
    lemma_index_of_seat(g.players, n);
    lemma_index_of_seat(g.players, next_index(len, i, !cw));
    assert(distinct_names(placed_players)) by {
        assert forall|a: int, b: int| 0 <= a < placed_players.len() && 0 <= b < placed_players.len() && a != b implies #[trigger] placed_players[a].username != #[trigger] placed_players[b].username by {
            assert(g.players[a].username != g.players[b].username);
        }
    }
    match card {
        Card::Colored(_, ColorableType::PlusThree) | Card::Colorless(ColorlessCard::RandomPlusSix) => {
            let dealt = with_hand(placed_players, n, placed_players[n].hand.add(penalty.to_multiset()));
            lemma_same_names(placed_players, dealt, player);
            lemma_same_names(placed_players, dealt, g.players[n].username);
        },
        _ => {},
    }
}

proof fn lemma_next_in_range(len: int, i: int, cw: bool)
    requires
        0 <= i < len,
    ensures
        0 <= next_index(len, i, cw) < len,
{
}

/// Playing a card takes exactly that card from the player's hand; when there is another seat,
/// the next seat receives exactly the penalty cards of a +3 or wild +6, and the player wins
/// exactly when that was their last card.
pub proof fn law_play_hands(g: GameView, player: Seq<char>, card: Card, wild_color: CardColor, penalty: Seq<Card>)
    requires
        g.wf(),
        g.players.len() >= 2,
        g.play_check(player, card) is Ok,
        penalty.len() == penalty_count(card),
    ensures
        ({
            let i = index_of(g.players, player);
            let n = next_index(g.players.len() as int, i, g.is_clockwise);
            let after = g.played(player, card, wild_color, penalty);
            &&& after.players.len() == g.players.len()
            &&& after.players[i].hand == g.players[i].hand.remove(card)
            &&& after.players[i].hand.len() + 1 == g.players[i].hand.len()
            &&& after.players[n].hand == g.players[n].hand.add(penalty.to_multiset())
            &&& forall|k: int| 0 <= k < g.players.len() && k != i && k != n ==> #[trigger] after.players[k] == g.players[k]
            &&& (after.winner == Some(player) <==> g.players[i].hand.len() == 1)
            &&& (after.winner is None <==> g.players[i].hand.len() != 1)
        }),
{
    let i = index_of(g.players, player);
    let len = g.players.len() as int;
    let cw = g.is_clockwise;
    lemma_index_of(g.players, player);
    lemma_next_in_range(len, i, cw);
    let n = next_index(len, i, cw);
    assert(n != i) by {
        if cw {
            if i + 1 < len {
                vstd::arithmetic::div_mod::lemma_small_mod((i + 1) as nat, len as nat);
            } else {
                vstd::arithmetic::div_mod::lemma_mod_self_0(len);
            }
        } else {
            if i > 0 {
                vstd::arithmetic::div_mod::lemma_mod_add_multiples_vanish(i - 1, len);
                vstd::arithmetic::div_mod::lemma_small_mod((i - 1) as nat, len as nat);
            } else {
                vstd::arithmetic::div_mod::lemma_small_mod((len - 1) as nat, len as nat);
            }
        }
    }
    assert(g.players[i].hand.count(card) > 0);
    assert(penalty.to_multiset().len() == penalty.len());
    if penalty_count(card) == 0 {
        assert(penalty.to_multiset() =~= Multiset::empty());
        assert(g.players[n].hand.add(Multiset::empty()) =~= g.players[n].hand);
    }
}

/// Taking a card back out of a hand undoes putting it in, and a card put in is held.
pub proof fn law_remove_undoes_add(hand: Multiset<Card>, card: Card)
    ensures
        hand.insert(card).remove(card) == hand,
        hand.insert(card).contains(card),
{
    assert(hand.insert(card).remove(card) =~= hand);
}

/// Before a game starts, a connection that registers a new name and then leaves restores the
/// server's connections and usernames; while registered, the connection is known under that
/// name.
pub proof fn law_register_then_leave(s: ServerView, id: usize, name: Seq<char>)
    requires
        s.wf(),
        s.game is None,
        s.register_check(id, name) is Ok,
        !s.usernames.contains(name),
    ensures
        ({
            let after = ServerView {
                connections: s.connections.insert(name, id),
                usernames: s.with_username(name),
                game: s.game,
            };
            &&& after.connections.contains_value(id)
            &&& user_of(after.connections, id) == name
            &&& after.connections.remove(user_of(after.connections, id)) == s.connections
            &&& after.usernames.remove(after.usernames.index_of(name)) == s.usernames
        }),
{
    let conns = s.connections.insert(name, id);
    let names = s.usernames.push(name);
    assert(conns.dom().contains(name) && conns[name] == id);
    let k = user_of(conns, id);
    assert(conns.dom().contains(k) && conns[k] == id);
    if k != name {
        assert(s.connections.dom().contains(k) && s.connections[k] == id);
        assert(false);
    }
    assert(!s.connections.dom().contains(name));
    assert(conns.remove(name) =~= s.connections);
    let j = names.index_of(name);
    assert(names[names.len() - 1] == name);
    assert(names[j] == name);
    if j != names.len() - 1 {
        assert(s.usernames[j] == name);
    }
    assert(names.remove(j) =~= s.usernames);
}

/// After a game has started, every registration from a fresh connection under a name that is
/// not connected is refused with `GameHasBegun`, and the server is left as it was: a name that
/// was not in the game cannot join, and one whose connection left cannot take its seat back.
pub proof fn law_join_after_start(s: ServerView, id: usize, name: Seq<char>, after: ServerView, result: Result<(), crate::protocol::ErrorResponse>)
    requires
        s.wf(),
        s.game is Some,
        !s.connections.contains_value(id),
        !s.connections.dom().contains(name),
        s.register_outcome(after, id, name, result),
    ensures
        result == Err::<(), crate::protocol::ErrorResponse>(crate::protocol::ErrorResponse::GameHasBegun),
        after == s,
{
}

/// The names of the seats, in seat order.
pub open spec fn seat_names(players: Seq<PlayerView>) -> Seq<Seq<char>> {
    players.map_values(|p: PlayerView| p.username)
}

/// What every game keeps: it has a player, the turn belongs to one of its players, and a
/// winner, once there is one, is a player whose hand is empty.
pub open spec fn game_invariant(g: GameView) -> bool {
    &&& g.wf()
    &&& g.winner matches Some(w) ==> has_player(g.players, w) && g.players[index_of(g.players, w)].hand.len() == 0
}

/// A game just begun keeps the invariant: a well-formed game without a winner.
pub proof fn law_new_game_invariant(g: GameView)
    requires
        g.wf(),
        g.winner is None,
    ensures
        game_invariant(g),
{
}

/// Passing the turn keeps the game well formed and the seats as they are.
proof fn lemma_advanced_wf(v: GameView)
    requires
        v.wf(),
    ensures
        v.advanced().wf(),
        v.advanced().players == v.players,
        v.advanced().winner == v.winner,
{
    let len = v.players.len() as int;
    lemma_index_of(v.players, v.current_player);
    let i = index_of(v.players, v.current_player);
    lemma_next_in_range(len, i, v.is_clockwise);
    let n = next_index(len, i, v.is_clockwise);
    assert(v.advanced().players[n].username == v.advanced().current_player);
}

/// Replacing a seat's hand keeps every seat's name.
proof fn lemma_with_hand_seat_names(players: Seq<PlayerView>, i: int, hand: Multiset<Card>)
    requires
        0 <= i < players.len(),
    ensures
        seat_names(with_hand(players, i, hand)) == seat_names(players),
        with_hand(players, i, hand).len() == players.len(),
        forall|k: int| 0 <= k < players.len() ==> #[trigger] with_hand(players, i, hand)[k].username == players[k].username,
{
    assert(seat_names(with_hand(players, i, hand)) =~= seat_names(players));
}

/// Seats with the same names in the same order have distinct names together.
proof fn lemma_seat_names_distinct(a: Seq<PlayerView>, b: Seq<PlayerView>)
    requires
        seat_names(a) == seat_names(b),
    ensures
        a.len() == b.len(),
        forall|k: int| 0 <= k < a.len() ==> #[trigger] a[k].username == b[k].username,
        distinct_names(a) ==> distinct_names(b),
{
    assert(seat_names(a).len() == a.len());
    assert forall|k: int| 0 <= k < a.len() implies #[trigger] a[k].username == b[k].username by {
        assert(seat_names(a)[k] == seat_names(b)[k]);
    }
    if distinct_names(a) {
        assert forall|x: int, y: int| 0 <= x < b.len() && 0 <= y < b.len() && x != y implies #[trigger] b[x].username != #[trigger] b[y].username by {
            assert(a[x].username != a[y].username);
        }
    }
}

/// An accepted play keeps the invariant and the seats' names.
proof fn lemma_played_invariant(g: GameView, player: Seq<char>, card: Card, wild_color: CardColor, penalty: Seq<Card>)
    requires
        game_invariant(g),
        g.play_check(player, card) is Ok,
    ensures
        game_invariant(g.played(player, card, wild_color, penalty)),
        seat_names(g.played(player, card, wild_color, penalty).players) == seat_names(g.players),
{
    let i = index_of(g.players, player);
    let len = g.players.len() as int;
    let cw = g.is_clockwise;
    lemma_index_of(g.players, player);
    lemma_index_of(g.players, g.current_player);
    let placed = GameView {
        players: with_hand(g.players, i, g.players[i].hand.remove(card)),
        top_card: card,
        active_color: Some(
            match card {
                Card::Colorless(_) => wild_color,
                Card::Colored(color, _) => color,
            },
        ),
        ..g
    };
    lemma_with_hand_seat_names(g.players, i, g.players[i].hand.remove(card));
    lemma_same_names(g.players, placed.players, g.current_player);
    lemma_same_names(g.players, placed.players, player);
    assert(placed.wf());
    let effected = placed.with_effect(i, card, penalty);
    match card {
        Card::Colored(_, ColorableType::PlusThree) | Card::Colorless(ColorlessCard::RandomPlusSix) => {
            lemma_next_in_range(len, i, cw);
            let n = next_index(len, i, cw);
            let dealt = GameView {
                players: with_hand(placed.players, n, placed.players[n].hand.add(penalty.to_multiset())),
                ..placed
            };
            lemma_with_hand_seat_names(placed.players, n, placed.players[n].hand.add(penalty.to_multiset()));
            lemma_same_names(placed.players, dealt.players, g.current_player);
            lemma_same_names(placed.players, dealt.players, player);
            assert(dealt.wf());
            lemma_advanced_wf(dealt);
        },
        Card::Colored(_, ColorableType::Skip) => {
            lemma_advanced_wf(placed);
        },
        _ => {},
    }
    assert(effected.wf());
    assert(seat_names(effected.players) == seat_names(g.players));
    lemma_seat_names_distinct(g.players, effected.players);
    lemma_same_names(g.players, effected.players, player);
    let judged = if effected.players[i].hand.len() == 0 {
        GameView { winner: Some(player), ..effected }
    } else {
        effected
    };
    assert(judged.wf());
    lemma_advanced_wf(judged);
}

/// Every play and every draw, accepted or refused, keeps the game invariant and keeps the
/// seats' names in their order, so names that were distinct stay distinct.
pub proof fn law_game_invariant(
    g: GameView,
    player: Seq<char>,
    card: Card,
    after_play: GameView,
    play_result: Result<(), InvalidAction>,
    after_draw: GameView,
    draw_result: Result<(), InvalidAction>,
)
    requires
        game_invariant(g),
        g.play_outcome(after_play, player, card, play_result),
        g.draw_outcome(after_draw, player, draw_result),
    ensures
        game_invariant(after_play),
        seat_names(after_play.players) == seat_names(g.players),
        distinct_names(g.players) ==> distinct_names(after_play.players),
        game_invariant(after_draw),
        seat_names(after_draw.players) == seat_names(g.players),
        distinct_names(g.players) ==> distinct_names(after_draw.players),
{
    if play_result is Ok {
        let (wild_color, penalty) = choose|wild_color: CardColor, penalty: Seq<Card>|
            {
                &&& penalty.len() == penalty_count(card)
                &&& #[trigger] g.played(player, card, wild_color, penalty) == after_play
            };
        lemma_played_invariant(g, player, card, wild_color, penalty);
    }
    lemma_seat_names_distinct(g.players, after_play.players);
    if draw_result is Ok {
        let drawn_card = choose|c: Card| #[trigger] g.drawn(player, c) == after_draw;
        let i = index_of(g.players, player);
        lemma_index_of(g.players, player);
        let hand = g.players[i].hand.insert(drawn_card);
        let taken = GameView { players: with_hand(g.players, i, hand), ..g };
        lemma_with_hand_seat_names(g.players, i, hand);
        lemma_same_names(g.players, taken.players, g.current_player);
        assert(taken.wf());
        lemma_advanced_wf(taken);
    }
    lemma_seat_names_distinct(g.players, after_draw.players);
}

/// Two colored cards fit only when they share a color or a face; a wild card fits on
/// anything; a colored card fits on a wild card exactly when no color is in force or the
/// color in force is its own.
pub proof fn law_playable_exactly(
    top: Card,
    active: Option<CardColor>,
    top_color: CardColor,
    top_face: ColorableType,
    top_wild: ColorlessCard,
    color: CardColor,
    face: ColorableType,
    wild: ColorlessCard,
)
    ensures
        can_play(Card::Colored(top_color, top_face), active, Card::Colored(color, face)) <==> (top_color
            == color || top_face == face),
        can_play(top, active, Card::Colorless(wild)),
        can_play(Card::Colorless(top_wild), active, Card::Colored(color, face)) <==> (active is None
            || active == Some(color)),
{
}

/// Before a game starts, a connection without a name that registers a name nobody is
/// connected under is accepted, however many names are registered: the name is connected
/// under that connection, is among the usernames, and nothing else changes.
pub proof fn law_register_before_start(s: ServerView, id: usize, name: Seq<char>, after: ServerView, result: Result<(), crate::protocol::ErrorResponse>)
    requires
        s.wf(),
        s.game is None,
        !s.connections.contains_value(id),
        !s.connections.dom().contains(name),
        s.register_outcome(after, id, name, result),
    ensures
        result is Ok,
        after.connections == s.connections.insert(name, id),
        after.usernames.contains(name),
        forall|k: Seq<char>| s.usernames.contains(k) ==> #[trigger] after.usernames.contains(k),
        after.usernames.len() <= s.usernames.len() + 1,
        after.game is None,
{
    if !s.usernames.contains(name) {
        assert(after.usernames[s.usernames.len() as int] == name);
        assert forall|k: Seq<char>| s.usernames.contains(k) implies #[trigger] after.usernames.contains(k) by {
            let i = choose|i: int| 0 <= i < s.usernames.len() && s.usernames[i] == k;
            assert(after.usernames[i] == k);
        }
    }
}

/// The names under which cards are typed: `random` and `random_plus_six` for the wild cards,
/// and for a colored card the color's name, an underscore, and the face's name, whatever the
/// color.
pub proof fn law_card_names(color: CardColor)
    ensures
        card_name(Card::Colorless(ColorlessCard::Random)) == "random"@,
        card_name(Card::Colorless(ColorlessCard::RandomPlusSix)) == "random_plus_six"@,
        color_prefix(CardColor::Orange) == "orange_"@,
        color_prefix(CardColor::Purple) == "purple_"@,
        color_prefix(CardColor::Blue) == "blue_"@,
        color_prefix(CardColor::Green) == "green_"@,
        card_name(Card::Colored(color, ColorableType::Zero)) == color_prefix(color) + "zero"@,
        card_name(Card::Colored(color, ColorableType::One)) == color_prefix(color) + "one"@,
        card_name(Card::Colored(color, ColorableType::Two)) == color_prefix(color) + "two"@,
        card_name(Card::Colored(color, ColorableType::Three)) == color_prefix(color) + "three"@,
        card_name(Card::Colored(color, ColorableType::Four)) == color_prefix(color) + "four"@,
        card_name(Card::Colored(color, ColorableType::Five)) == color_prefix(color) + "five"@,
        card_name(Card::Colored(color, ColorableType::Six)) == color_prefix(color) + "six"@,
        card_name(Card::Colored(color, ColorableType::Seven)) == color_prefix(color) + "seven"@,
        card_name(Card::Colored(color, ColorableType::Eight)) == color_prefix(color) + "eight"@,
        card_name(Card::Colored(color, ColorableType::Nine)) == color_prefix(color) + "nine"@,
        card_name(Card::Colored(color, ColorableType::PlusThree)) == color_prefix(color) + "plus_three"@,
        card_name(Card::Colored(color, ColorableType::Reverse)) == color_prefix(color) + "reverse"@,
        card_name(Card::Colored(color, ColorableType::Skip)) == color_prefix(color) + "skip"@,
{
}

/// A color roll that picks `color`.
spec fn roll_of_color(color: CardColor) -> int {
    match color {
        CardColor::Orange => 0,
        CardColor::Purple => 1,
        CardColor::Blue => 2,
        CardColor::Green => 3,
    }
}

/// A face roll that picks `face`.
spec fn roll_of_face(face: ColorableType) -> int {
    match face {
        ColorableType::Zero => 0,
        ColorableType::One => 7,
        ColorableType::Two => 14,
        ColorableType::Three => 21,
        ColorableType::Four => 28,
        ColorableType::Five => 35,
        ColorableType::Six => 42,
        ColorableType::Seven => 49,
        ColorableType::Eight => 56,
        ColorableType::Nine => 63,
        ColorableType::PlusThree => 70,
        ColorableType::Reverse => 80,
        ColorableType::Skip => 90,
    }
}

/// Every card is what some draws of `Card::random` designate: each color, each face and both
/// wild cards can come out, so no card can be ruled out of a random draw.
pub proof fn law_every_card_can_be_drawn(card: Card)
    ensures
        exists|colored: bool, color_roll: int, face_roll: int, plain_wild: bool|
            {
                &&& 0 <= color_roll < NUM_COLORS
                &&& 0 <= face_roll < FACE_ROLLS
                &&& card == #[trigger] card_of_draws(colored, color_roll, face_roll, plain_wild)
            },
{
    match card {
        Card::Colorless(ColorlessCard::Random) => {
            assert(card == card_of_draws(false, 0, 0, true));
        },
        Card::Colorless(ColorlessCard::RandomPlusSix) => {
            assert(card == card_of_draws(false, 0, 0, false));
        },
        Card::Colored(c, f) => {
            assert(card == card_of_draws(true, roll_of_color(c), roll_of_face(f), false));
        },
    }
}

} // verus!
