use eins::asset::{card_back_image, get_card_image, get_color32};
use eins::card::{Card, CardColor, ColorableType, ColorlessCard};
use eins::lobby::{check_join_address, host_settings, parse_port, LobbyInputError};
use eins::ui::{card_count_of, expand_hand, find_winner};

const BLUE_ONE: Card = Card::Colored(CardColor::Blue, ColorableType::One);
const ORANGE_SKIP: Card = Card::Colored(CardColor::Orange, ColorableType::Skip);
const WILD: Card = Card::Colorless(ColorlessCard::Random);

#[test]
fn expanded_hand_is_sorted_with_repeats() {
    let hand = vec![(BLUE_ONE, 2), (WILD, 1), (ORANGE_SKIP, 1), (BLUE_ONE, 1), (WILD, 0)];
    assert_eq!(expand_hand(&hand), vec![WILD, ORANGE_SKIP, BLUE_ONE, BLUE_ONE, BLUE_ONE]);
    assert!(expand_hand(&vec![]).is_empty());
}

#[test]
fn winner_is_first_with_no_cards() {
    let counts = vec![("a".to_string(), 3), ("b".to_string(), 0), ("c".to_string(), 0)];
    assert_eq!(find_winner(&counts), Some("b".to_string()));
    let counts = vec![("a".to_string(), 3), ("b".to_string(), 1)];
    assert_eq!(find_winner(&counts), None);
}

#[test]
fn counts_are_looked_up_by_name() {
    let counts = vec![("a".to_string(), 3), ("b".to_string(), 5)];
    assert_eq!(card_count_of(&counts, &"b".to_string()), 5);
    assert_eq!(card_count_of(&counts, &"z".to_string()), 0);
}

#[test]
fn ports_parse_like_u16() {
    for text in ["0", "80", "+80", "65535", "007", "", "+", "65536", "99999999", "8o", "-1", " 80", "80 "] {
        assert_eq!(parse_port(text), text.parse::<u16>().ok(), "for {:?}", text);
    }
}

#[test]
fn host_and_join_settings() {
    assert_eq!(host_settings("", "80"), Err(LobbyInputError::EmptyUsername));
    assert_eq!(host_settings("me", ""), Ok(0));
    assert_eq!(host_settings("me", "8080"), Ok(8080));
    assert_eq!(host_settings("me", "port"), Err(LobbyInputError::InvalidPort));
    assert_eq!(check_join_address(""), Err(LobbyInputError::EmptyAddress));
    assert_eq!(check_join_address("1.2.3.4:80"), Ok(()));
    assert_eq!(LobbyInputError::InvalidPort.message(), "Invalid port");
    assert_eq!(LobbyInputError::EmptyUsername.message(), "Username cannot be empty");
    assert_eq!(LobbyInputError::EmptyAddress.message(), "Address cannot be empty");
}

#[test]
fn card_pictures() {
    let blue = get_card_image(&BLUE_ONE, &None);
    assert_eq!(blue.asset, "CardOne.png");
    assert_eq!(blue.tint, Some((140, 225, 252)));
    let wild_plain = get_card_image(&WILD, &None);
    assert_eq!(wild_plain.asset, "CardRandom.png");
    assert_eq!(wild_plain.tint, Some((255, 255, 255)));
    let wild_colored = get_card_image(&Card::Colorless(ColorlessCard::RandomPlusSix), &Some(CardColor::Green));
    assert_eq!(wild_colored.asset, "CardRandomPlusSixBlank.png");
    assert_eq!(wild_colored.tint, Some(get_color32(&CardColor::Green)));
    assert_eq!(get_color32(&CardColor::Orange), (240, 183, 61));
    assert_eq!(get_color32(&CardColor::Purple), (237, 101, 246));
    let back = card_back_image();
    assert_eq!(back.asset, "CardBack.png");
    assert_eq!(back.tint, None);
}
