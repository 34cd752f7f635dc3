//! The decisions of the text-mode debugging front end: reading card names, commands and
//! player names. Reading lines and printing stay with the caller.
use crate::card::{Card, CardColor, ColorableType, ColorlessCard};
use crate::game::Game;
use crate::invalid_action::InvalidAction;
use vstd::prelude::*;

verus! {

/// The prefix that names a color in a card name.
pub open spec fn color_prefix(color: CardColor) -> Seq<char> {
    match color {
        CardColor::Orange => "orange_"@,
        CardColor::Purple => "purple_"@,
        CardColor::Blue => "blue_"@,
        CardColor::Green => "green_"@,
    }
}

/// The name of a face in a card name.
pub open spec fn face_name(face: ColorableType) -> Seq<char> {
    match face {
        ColorableType::Zero => "zero"@,
        ColorableType::One => "one"@,
        ColorableType::Two => "two"@,
        ColorableType::Three => "three"@,
        ColorableType::Four => "four"@,
        ColorableType::Five => "five"@,
        ColorableType::Six => "six"@,
        ColorableType::Seven => "seven"@,
        ColorableType::Eight => "eight"@,
        ColorableType::Nine => "nine"@,
        ColorableType::PlusThree => "plus_three"@,
        ColorableType::Reverse => "reverse"@,
        ColorableType::Skip => "skip"@,
    }
}

/// The name under which a card is typed: `random`, `random_plus_six`, or a color prefix
/// followed by a face name (e.g. `blue_one`, `orange_plus_three`).
pub open spec fn card_name(card: Card) -> Seq<char> {
    match card {
        Card::Colorless(ColorlessCard::Random) => "random"@,
        Card::Colorless(ColorlessCard::RandomPlusSix) => "random_plus_six"@,
        Card::Colored(color, face) => color_prefix(color) + face_name(face),
    }
}

/// Whether two strings hold the same characters.
fn same_text(a: &str, b: &str) -> (same: bool)
    ensures
        same == (a@ == b@),
{
    a.to_owned() == b.to_owned()
}

/// The rest of `s` after `prefix`, when `s` begins with `prefix`.
fn after_prefix<'a>(s: &'a str, prefix: &str) -> (rest: Option<&'a str>)
    ensures
        match rest {
            Some(r) => s@ == prefix@ + r@,
            None => !(prefix@.len() <= s@.len() && s@.subrange(0, prefix@.len() as int) == prefix@),
        },
{
    let s_len = s.unicode_len();
    let p_len = prefix.unicode_len();
    if p_len <= s_len && same_text(s.substring_char(0, p_len), prefix) {
        let rest = s.substring_char(p_len, s_len);
        proof {
            assert(s@ =~= prefix@ + rest@);
        }
        Some(rest)
    } else {
        None
    }
}

/// The face whose name is `name`, if any.
fn face_of_name(name: &str) -> (face: Option<ColorableType>)
    ensures
        match face {
            Some(f) => name@ == face_name(f),
            None => forall|f: ColorableType| name@ != face_name(f),
        },
{
    proof {
        reveal_strlit("zero");
        reveal_strlit("one");
        reveal_strlit("two");
        reveal_strlit("three");
        reveal_strlit("four");
        reveal_strlit("five");
        reveal_strlit("six");
        reveal_strlit("seven");
        reveal_strlit("eight");
        reveal_strlit("nine");
        reveal_strlit("plus_three");
        reveal_strlit("reverse");
        reveal_strlit("skip");
    }
    if same_text(name, "zero") {
        Some(ColorableType::Zero)
    } else if same_text(name, "one") {
        Some(ColorableType::One)
    } else if same_text(name, "two") {
        Some(ColorableType::Two)
    } else if same_text(name, "three") {
        Some(ColorableType::Three)
    } else if same_text(name, "four") {
        Some(ColorableType::Four)
    } else if same_text(name, "five") {
        Some(ColorableType::Five)
    } else if same_text(name, "six") {
        Some(ColorableType::Six)
    } else if same_text(name, "seven") {
        Some(ColorableType::Seven)
    } else if same_text(name, "eight") {
        Some(ColorableType::Eight)
    } else if same_text(name, "nine") {
        Some(ColorableType::Nine)
    } else if same_text(name, "plus_three") {
        Some(ColorableType::PlusThree)
    } else if same_text(name, "reverse") {
        Some(ColorableType::Reverse)
    } else if same_text(name, "skip") {
        Some(ColorableType::Skip)
    } else {
        None
    }
}

/// The card typed as `card_string`, if it is the name of a card (see `card_name`).
#[verifier::rlimit(60)]
pub fn debug_get_card(card_string: &str) -> (card: Option<Card>)
    ensures
        match card {
            Some(c) => card_string@ == card_name(c),
            None => forall|c: Card| card_string@ != card_name(c),
        },
{
    proof {
        reveal_strlit("random");
        reveal_strlit("random_plus_six");
        reveal_strlit("orange_");
        reveal_strlit("purple_");
        reveal_strlit("blue_");
        reveal_strlit("green_");
    }
    if same_text(card_string, "random") {
        return Some(Card::Colorless(ColorlessCard::Random));
    }
    if same_text(card_string, "random_plus_six") {
        return Some(Card::Colorless(ColorlessCard::RandomPlusSix));
    }
    let (color, card_type_string) = if let Some(rest) = after_prefix(card_string, "orange_") {
        (CardColor::Orange, rest)
    } else if let Some(rest) = after_prefix(card_string, "purple_") {
        (CardColor::Purple, rest)
    } else if let Some(rest) = after_prefix(card_string, "blue_") {
        (CardColor::Blue, rest)
    } else if let Some(rest) = after_prefix(card_string, "green_") {
        (CardColor::Green, rest)
    } else {
        proof {
            assert forall|c: Card| card_string@ != card_name(c) by {
                if let Card::Colored(col, f) = c {
                    if card_string@ == card_name(c) {
                        assert(card_string@.subrange(0, color_prefix(col).len() as int) =~= color_prefix(col));
                    }
                }
            }
        }
        return None;
    };
    match face_of_name(card_type_string) {
        Some(face) => Some(Card::Colored(color, face)),
        None => {
            proof {
                assert forall|c: Card| card_string@ != card_name(c) by {
                    if let Card::Colored(col, f) = c {
                        if card_string@ == card_name(c) {
                            let p = color_prefix(col);
                            assert(card_string@.subrange(0, p.len() as int) =~= p);
                            assert(card_string@[0] == p[0]);
                            assert(card_string@ == color_prefix(color) + card_type_string@);
                            assert(card_string@[0] == color_prefix(color)[0]);
                            assert(p == color_prefix(color));
                            assert(card_type_string@ =~= card_string@.subrange(p.len() as int, card_string@.len() as int));
                            assert(face_name(f) =~= card_string@.subrange(p.len() as int, card_string@.len() as int));
                        }
                    }
                }
            }
            None
        },
    }
}

/// What one typed player name leads to while players are gathered.
#[derive(Debug, Clone, Copy, PartialEq, Eq, Structural)]
pub enum PlayerEntry {
    /// An empty line with at least two players: the game can start.
    Start,
    /// An empty line with fewer than two players.
    NotEnoughPlayers,
    /// The name is already taken.
    AlreadyInGame,
    /// The name joined the list.
    Added,
}

/// Takes one typed (already trimmed) player name: an empty name starts the game once there
/// are two players, a taken name is refused, any other name joins the list.
pub fn debug_enter_player(players: &mut Vec<String>, name: String) -> (entry: PlayerEntry)
    ensures
        name@.len() == 0 && old(players).len() < 2 ==> entry == PlayerEntry::NotEnoughPlayers,
        name@.len() == 0 && old(players).len() >= 2 ==> entry == PlayerEntry::Start,
        name@.len() != 0 && old(players)@.map_values(|p: String| p@).contains(name@) ==> entry
            == PlayerEntry::AlreadyInGame,
        name@.len() != 0 && !old(players)@.map_values(|p: String| p@).contains(name@) ==> entry
            == PlayerEntry::Added,
        entry == PlayerEntry::Added ==> final(players)@ == old(players)@.push(name),
        entry != PlayerEntry::Added ==> final(players)@ == old(players)@,
{
    if name.unicode_len() == 0 {
        if players.len() < 2 {
            return PlayerEntry::NotEnoughPlayers;
        }
        return PlayerEntry::Start;
    }
    let mut i: usize = 0;
    while i < players.len()
        invariant
            i <= players.len(),
            name@.len() != 0,
            players@ == old(players)@,
            forall|j: int| 0 <= j < i ==> (#[trigger] players@[j])@ != name@,
        decreases players.len() - i,
    {
        if players[i] == name {
            proof {
                assert(old(players)@.map_values(|p: String| p@)[i as int] == name@);
            }
            return PlayerEntry::AlreadyInGame;
        }
        i = i + 1;
    }
    proof {
        let names = old(players)@.map_values(|p: String| p@);
        assert forall|j: int| 0 <= j < names.len() implies #[trigger] names[j] != name@ by {
            assert(players@[j]@ != name@);
        }
    }
    players.push(name);
    PlayerEntry::Added
}

/// Carries out one typed command, already split into words: `play <username> <card>` or
/// `draw <username>`. A line that is not such a command gives `None` and changes nothing;
/// a command gives the game's answer.
pub fn debug_run_command(game: &mut Game, words: &Vec<String>) -> (outcome: Option<Result<(), InvalidAction>>)
    requires
        old(game)@.wf(),
    ensures
        final(game)@.wf(),
        outcome is None ==> final(game)@ == old(game)@,
        outcome is None <==> !(words.len() == 3 && words@[0]@ == "play"@ && exists|c: Card| words@[2]@ == #[trigger] card_name(c))
            && !(words.len() == 2 && words@[0]@ == "draw"@),
        outcome matches Some(result) ==> (words@[0]@ == "play"@ ==> exists|c: Card|
            words@[2]@ == #[trigger] card_name(c) && old(game)@.play_outcome(final(game)@, words@[1]@, c, result)),
        outcome matches Some(result) ==> (words@[0]@ == "draw"@ ==> old(game)@.draw_outcome(final(game)@, words@[1]@, result)),
{
    proof {
        reveal_strlit("play");
        reveal_strlit("draw");
        assert("play"@[0] == 'p' && "draw"@[0] == 'd');
        assert("play"@ != "draw"@);
    }
    if words.len() == 0 {
        return None;
    }
    if same_text(words[0].as_str(), "play") {
        if words.len() != 3 {
            return None;
        }
        match debug_get_card(words[2].as_str()) {
            Some(card) => Some(game.play_card(&words[1], &card)),
            None => None,
        }
    } else if same_text(words[0].as_str(), "draw") {
        if words.len() != 2 {
            return None;
        }
        Some(game.draw_card(&words[1]))
    } else {
        None
    }
}

} // verus!
