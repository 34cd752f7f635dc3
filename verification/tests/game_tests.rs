use eins::card::{Card, CardColor, ColorableType, ColorlessCard};
use eins::game::Game;
use eins::invalid_action::InvalidAction;
use eins::player::Player;

const TEST_CARD: Card = Card::Colored(CardColor::Blue, ColorableType::One);
const PLAY_CARD: Card = Card::Colored(CardColor::Green, ColorableType::One);
const RANDOM_CARD: Card = Card::Colorless(ColorlessCard::Random);

fn make_test_game() -> Game {
    Game::from_parts(
        vec![
            Player::with_hand("bob".into(), vec![(PLAY_CARD, 1), (RANDOM_CARD, 1)]),
            Player::with_hand("alice".into(), vec![(PLAY_CARD, 1)]),
            Player::with_hand("joe".into(), vec![(PLAY_CARD, 1)]),
        ],
        "bob".into(),
        true,
        TEST_CARD,
        None,
        None,
    )
}

fn hand_total(player: &Player) -> i64 {
    player.hand().iter().fold(0, |sum, item| sum + item.1)
}

#[test]
fn test_play_card_simple() {
    let mut game = make_test_game();

    assert!(game.play_card(&"alice".into(), &PLAY_CARD) == Err(InvalidAction::NotPlayerTurn));
    assert!(game.play_card(&"foo".into(), &PLAY_CARD) == Err(InvalidAction::UnknownUsername));
    assert!(game.play_card(&"bob".into(), &TEST_CARD) == Err(InvalidAction::CardNotInHand));
    assert!(game.play_card(&"bob".into(), &PLAY_CARD) == Ok(()));
    assert!(!game.players()[0].has_card(&PLAY_CARD));
    assert!(game.current_player() == "alice");
    assert!(game.top_card() == PLAY_CARD);
}

#[test]
fn test_draw_card_simple() {
    let mut game = make_test_game();

    assert!(game.draw_card(&"alice".into()) == Err(InvalidAction::NotPlayerTurn));
    assert!(game.draw_card(&"foo".into()) == Err(InvalidAction::UnknownUsername));
    assert!(game.draw_card(&"bob".into()) == Ok(()));
    assert!(game.current_player() == "alice");
    assert!(game.top_card() == TEST_CARD);
}

#[test]
fn play_card_cannot_play_is_refused_and_changes_nothing() {
    let mut game = Game::from_parts(
        vec![
            Player::with_hand("bob".into(), vec![(Card::Colored(CardColor::Orange, ColorableType::Five), 1)]),
            Player::with_hand("alice".into(), vec![(PLAY_CARD, 1)]),
        ],
        "bob".into(),
        true,
        TEST_CARD,
        None,
        None,
    );
    let orange_five = Card::Colored(CardColor::Orange, ColorableType::Five);
    assert_eq!(game.play_card(&"bob".into(), &orange_five), Err(InvalidAction::CannotPlayCard));
    assert!(game.players()[0].has_card(&orange_five));
    assert_eq!(game.current_player(), "bob");
    assert_eq!(game.top_card(), TEST_CARD);
}

#[test]
fn last_card_wins_and_game_is_over() {
    let mut game = Game::from_parts(
        vec![
            Player::with_hand("bob".into(), vec![(PLAY_CARD, 1)]),
            Player::with_hand("alice".into(), vec![(PLAY_CARD, 2)]),
        ],
        "bob".into(),
        true,
        TEST_CARD,
        None,
        None,
    );
    assert_eq!(game.play_card(&"bob".into(), &PLAY_CARD), Ok(()));
    assert_eq!(game.winner(), Some("bob"));
    assert_eq!(game.current_player(), "alice");
    assert_eq!(game.play_card(&"alice".into(), &PLAY_CARD), Err(InvalidAction::GameIsOver));
    assert_eq!(game.draw_card(&"alice".into()), Err(InvalidAction::GameIsOver));
    assert_eq!(game.draw_card_with(&"alice".into(), TEST_CARD), Err(InvalidAction::GameIsOver));
}

#[test]
fn skip_passes_over_next_player() {
    let skip = Card::Colored(CardColor::Blue, ColorableType::Skip);
    let mut game = Game::from_parts(
        vec![
            Player::with_hand("a".into(), vec![(skip, 2)]),
            Player::with_hand("b".into(), vec![(PLAY_CARD, 1)]),
            Player::with_hand("c".into(), vec![(PLAY_CARD, 1)]),
        ],
        "a".into(),
        true,
        TEST_CARD,
        None,
        None,
    );
    assert_eq!(game.play_card_with(&"a".into(), &skip, CardColor::Orange, &vec![]), Ok(()));
    assert_eq!(game.current_player(), "c");
    assert_eq!(game.active_color(), Some(CardColor::Blue));
}

#[test]
fn reverse_turns_direction() {
    let reverse = Card::Colored(CardColor::Blue, ColorableType::Reverse);
    let mut game = Game::from_parts(
        vec![
            Player::with_hand("a".into(), vec![(reverse, 2)]),
            Player::with_hand("b".into(), vec![(PLAY_CARD, 1)]),
            Player::with_hand("c".into(), vec![(PLAY_CARD, 1)]),
        ],
        "a".into(),
        true,
        TEST_CARD,
        None,
        None,
    );
    assert_eq!(game.play_card_with(&"a".into(), &reverse, CardColor::Orange, &vec![]), Ok(()));
    assert!(!game.is_clockwise());
    assert_eq!(game.current_player(), "c");
}

#[test]
fn plus_three_deals_penalty_and_skips() {
    let plus_three = Card::Colored(CardColor::Blue, ColorableType::PlusThree);
    let mut game = Game::from_parts(
        vec![
            Player::with_hand("a".into(), vec![(plus_three, 2)]),
            Player::with_hand("b".into(), vec![(PLAY_CARD, 1)]),
            Player::with_hand("c".into(), vec![(PLAY_CARD, 1)]),
        ],
        "a".into(),
        true,
        TEST_CARD,
        None,
        None,
    );
    let penalty = vec![TEST_CARD, TEST_CARD, RANDOM_CARD];
    assert_eq!(game.play_card_with(&"a".into(), &plus_three, CardColor::Orange, &penalty), Ok(()));
    assert_eq!(game.current_player(), "c");
    assert_eq!(hand_total(&game.players()[1]), 4);
    assert_eq!(hand_total(&game.players()[0]), 1);
    assert!(game.players()[1].has_card(&RANDOM_CARD));
}

#[test]
fn wild_plus_six_sets_chosen_color_and_deals_six() {
    let plus_six = Card::Colorless(ColorlessCard::RandomPlusSix);
    let mut game = Game::from_parts(
        vec![
            Player::with_hand("a".into(), vec![(plus_six, 2)]),
            Player::with_hand("b".into(), vec![(PLAY_CARD, 1)]),
        ],
        "a".into(),
        true,
        TEST_CARD,
        None,
        None,
    );
    let penalty = vec![TEST_CARD; 6];
    assert_eq!(game.play_card_with(&"a".into(), &plus_six, CardColor::Purple, &penalty), Ok(()));
    assert_eq!(game.active_color(), Some(CardColor::Purple));
    assert_eq!(game.top_card(), plus_six);
    // Two players: the penalised player is skipped, so the turn comes back.
    assert_eq!(game.current_player(), "a");
    assert_eq!(hand_total(&game.players()[1]), 7);
}

#[test]
fn random_play_of_plus_six_deals_six_cards() {
    let plus_six = Card::Colorless(ColorlessCard::RandomPlusSix);
    let mut game = Game::from_parts(
        vec![
            Player::with_hand("a".into(), vec![(plus_six, 2)]),
            Player::with_hand("b".into(), vec![(PLAY_CARD, 1)]),
            Player::with_hand("c".into(), vec![(PLAY_CARD, 1)]),
        ],
        "a".into(),
        true,
        TEST_CARD,
        None,
        None,
    );
    assert_eq!(game.play_card(&"a".into(), &plus_six), Ok(()));
    assert!(game.active_color().is_some());
    assert_eq!(hand_total(&game.players()[1]), 7);
    assert_eq!(game.current_player(), "c");
}

#[test]
fn wild_top_card_checks_active_color() {
    let wild = Card::Colorless(ColorlessCard::Random);
    let blue_two = Card::Colored(CardColor::Blue, ColorableType::Two);
    let green_two = Card::Colored(CardColor::Green, ColorableType::Two);
    assert!(Game::can_play_card(&wild, &Some(CardColor::Blue), &blue_two));
    assert!(!Game::can_play_card(&wild, &Some(CardColor::Blue), &green_two));
    assert!(Game::can_play_card(&wild, &None, &green_two));
    assert!(Game::can_play_card(&TEST_CARD, &None, &wild));
    assert!(Game::can_play_card(&wild, &Some(CardColor::Blue), &wild));
    assert!(Game::can_play_card(&TEST_CARD, &None, &PLAY_CARD));
    assert!(Game::can_play_card(&TEST_CARD, &None, &blue_two));
    assert!(!Game::can_play_card(&TEST_CARD, &None, &green_two));
}

#[test]
fn draw_with_adds_that_card() {
    let mut game = make_test_game();
    assert_eq!(game.draw_card_with(&"bob".into(), TEST_CARD), Ok(()));
    assert!(game.players()[0].has_card(&TEST_CARD));
    assert_eq!(hand_total(&game.players()[0]), 3);
    assert_eq!(game.current_player(), "alice");
}

#[test]
fn new_game_deals_hands() {
    let names: Vec<String> = vec!["x".into(), "y".into()];
    let game = Game::new(&names, 6).unwrap();
    assert_eq!(game.players().len(), 2);
    assert_eq!(game.current_player(), "x");
    assert!(game.is_clockwise());
    assert_eq!(game.winner(), None);
    assert_eq!(game.active_color(), None);
    for p in game.players() {
        assert_eq!(hand_total(p), 6);
    }
    let state = game.get_player_game_state(&"y".into()).unwrap();
    assert_eq!(state.player_order, vec!["x".to_string(), "y".to_string()]);
    assert_eq!(state.card_counts, vec![("x".to_string(), 6), ("y".to_string(), 6)]);
    assert_eq!(state.current_player, "x");
    assert!(game.get_player_game_state(&"z".into()).is_none());
    let zero = Game::new(&names, -3).unwrap();
    assert_eq!(hand_total(&zero.players()[0]), 0);
}

#[test]
fn game_state_lists_hand_in_order() {
    let game = make_test_game();
    let state = game.get_player_game_state(&"bob".into()).unwrap();
    assert_eq!(state.hand, vec![(RANDOM_CARD, 1), (PLAY_CARD, 1)]);
    assert_eq!(state.top_card, TEST_CARD);
    assert!(state.is_clockwise);
    assert_eq!(state.winner, None);
}

#[test]
fn penalty_counts() {
    assert_eq!(Game::penalty_count(&Card::Colored(CardColor::Blue, ColorableType::PlusThree)), 3);
    assert_eq!(Game::penalty_count(&Card::Colorless(ColorlessCard::RandomPlusSix)), 6);
    assert_eq!(Game::penalty_count(&RANDOM_CARD), 0);
    assert_eq!(Game::penalty_count(&TEST_CARD), 0);
}
