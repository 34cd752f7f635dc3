use eins::card::{Card, CardColor, ColorableType, ColorlessCard};
use eins::debug_cli::{debug_enter_player, debug_get_card, debug_run_command, PlayerEntry};
use eins::game::Game;
use eins::invalid_action::InvalidAction;
use eins::player::Player;

#[test]
fn card_names_parse() {
    assert_eq!(debug_get_card("random"), Some(Card::Colorless(ColorlessCard::Random)));
    assert_eq!(debug_get_card("random_plus_six"), Some(Card::Colorless(ColorlessCard::RandomPlusSix)));
    assert_eq!(debug_get_card("blue_one"), Some(Card::Colored(CardColor::Blue, ColorableType::One)));
    assert_eq!(
        debug_get_card("orange_plus_three"),
        Some(Card::Colored(CardColor::Orange, ColorableType::PlusThree))
    );
    assert_eq!(debug_get_card("green_skip"), Some(Card::Colored(CardColor::Green, ColorableType::Skip)));
    assert_eq!(debug_get_card("purple_reverse"), Some(Card::Colored(CardColor::Purple, ColorableType::Reverse)));
    assert_eq!(debug_get_card("blue_"), None);
    assert_eq!(debug_get_card("red_one"), None);
    assert_eq!(debug_get_card("blue_ten"), None);
    assert_eq!(debug_get_card(""), None);
}

#[test]
fn players_are_gathered() {
    let mut players: Vec<String> = vec![];
    assert_eq!(debug_enter_player(&mut players, "".into()), PlayerEntry::NotEnoughPlayers);
    assert_eq!(debug_enter_player(&mut players, "ann".into()), PlayerEntry::Added);
    assert_eq!(debug_enter_player(&mut players, "ann".into()), PlayerEntry::AlreadyInGame);
    assert_eq!(debug_enter_player(&mut players, "ben".into()), PlayerEntry::Added);
    assert_eq!(debug_enter_player(&mut players, "".into()), PlayerEntry::Start);
    assert_eq!(players, vec!["ann".to_string(), "ben".to_string()]);
}

fn words(line: &str) -> Vec<String> {
    line.split_whitespace().map(|w| w.to_string()).collect()
}

#[test]
fn commands_run() {
    let blue_one = Card::Colored(CardColor::Blue, ColorableType::One);
    let mut game = Game::from_parts(
        vec![
            Player::with_hand("ann".into(), vec![(blue_one, 2)]),
            Player::with_hand("ben".into(), vec![(blue_one, 1)]),
        ],
        "ann".into(),
        true,
        Card::Colored(CardColor::Blue, ColorableType::Two),
        None,
        None,
    );
    assert_eq!(debug_run_command(&mut game, &words("")), None);
    assert_eq!(debug_run_command(&mut game, &words("play ann")), None);
    assert_eq!(debug_run_command(&mut game, &words("play ann red_one")), None);
    assert_eq!(debug_run_command(&mut game, &words("jump ann")), None);
    assert_eq!(debug_run_command(&mut game, &words("draw ben")), Some(Err(InvalidAction::NotPlayerTurn)));
    assert_eq!(debug_run_command(&mut game, &words("play ann blue_one")), Some(Ok(())));
    assert_eq!(game.current_player(), "ben");
    assert_eq!(debug_run_command(&mut game, &words("draw ben")), Some(Ok(())));
    assert_eq!(game.current_player(), "ann");
}
