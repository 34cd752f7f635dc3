use std::collections::HashMap;

use eins::card::{Card, CardColor, ColorableType, ColorlessCard};
use eins::player::Player;

const BLUE_CARD: Card = Card::Colored(CardColor::Blue, ColorableType::One);
const GREEN_CARD: Card = Card::Colored(CardColor::Green, ColorableType::One);
const RANDOM_CARD: Card = Card::Colorless(ColorlessCard::Random);
const RANDOM_PLUS_6_CARD: Card = Card::Colorless(ColorlessCard::RandomPlusSix);

fn make_test_player() -> Player {
    Player::with_hand("foo".into(), vec![(BLUE_CARD, 5), (GREEN_CARD, 3), (RANDOM_CARD, 1)])
}

fn count_cards(player: &Player) -> i64 {
    player.hand().iter().fold(0, |sum, item| sum + item.1)
}

fn hand_map(player: &Player) -> HashMap<Card, i64> {
    player.hand().into_iter().collect()
}

#[test]
fn test_add_cards() {
    let mut player = make_test_player();

    let initial = count_cards(&player);
    player.add_cards(5);
    assert!(count_cards(&player) == initial + 5);
    player.add_cards(100);
    assert!(count_cards(&player) == initial + 100);
}

#[test]
fn test_has_card() {
    let player = make_test_player();

    assert!(player.has_card(&BLUE_CARD));
    assert!(player.has_card(&GREEN_CARD));
    assert!(player.has_card(&RANDOM_CARD));
    assert!(!player.has_card(&RANDOM_PLUS_6_CARD));
}

#[test]
fn test_remove_card() {
    let mut player = make_test_player();

    player.remove_card(&BLUE_CARD);
    assert!(hand_map(&player) == HashMap::from([(BLUE_CARD, 4), (GREEN_CARD, 3), (RANDOM_CARD, 1)]));
    player.remove_card(&RANDOM_CARD);
    assert!(hand_map(&player) == HashMap::from([(BLUE_CARD, 4), (GREEN_CARD, 3)]));
}

#[test]
fn remove_missing_card_changes_nothing() {
    let mut player = make_test_player();
    player.remove_card(&RANDOM_PLUS_6_CARD);
    assert!(hand_map(&player) == HashMap::from([(BLUE_CARD, 5), (GREEN_CARD, 3), (RANDOM_CARD, 1)]));
}

#[test]
fn remove_undoes_add() {
    let mut player = make_test_player();
    player.add_card(RANDOM_PLUS_6_CARD);
    assert!(player.has_card(&RANDOM_PLUS_6_CARD));
    player.remove_card(&RANDOM_PLUS_6_CARD);
    assert!(hand_map(&player) == HashMap::from([(BLUE_CARD, 5), (GREEN_CARD, 3), (RANDOM_CARD, 1)]));
}

#[test]
fn add_cards_with_non_positive_count_adds_nothing() {
    let mut player = make_test_player();
    player.add_cards(0);
    player.add_cards(-4);
    assert_eq!(count_cards(&player), 9);
}

#[test]
fn new_player_and_activity() {
    let mut player = Player::new("zed".into(), 7);
    assert_eq!(player.username(), "zed");
    assert_eq!(count_cards(&player), 7);
    assert_eq!(player.hand_size(), 7);
    player.make_inactive();
    player.make_active();
    assert_eq!(count_cards(&player), 7);
}

#[test]
fn hand_listing_is_sorted_and_merged() {
    let player = Player::with_hand(
        "m".into(),
        vec![(GREEN_CARD, 2), (RANDOM_PLUS_6_CARD, 1), (GREEN_CARD, 1), (BLUE_CARD, 1)],
    );
    assert_eq!(player.hand(), vec![(RANDOM_PLUS_6_CARD, 1), (BLUE_CARD, 1), (GREEN_CARD, 3)]);
}

#[test]
fn add_cards_tops_up_from_the_dealt_hand() {
    let mut player = make_test_player();
    let initial = count_cards(&player);
    player.add_cards(5);
    player.add_cards(3);
    assert_eq!(count_cards(&player), initial + 5);
    player.remove_card(&BLUE_CARD);
    player.remove_card(&BLUE_CARD);
    player.remove_card(&BLUE_CARD);
    assert_eq!(count_cards(&player), initial + 2);
    player.add_cards(4);
    assert_eq!(count_cards(&player), initial + 4);
    let mut fresh = Player::new("new".into(), 3);
    fresh.add_cards(2);
    assert_eq!(count_cards(&fresh), 5);
}
