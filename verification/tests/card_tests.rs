use std::collections::HashSet;

use eins::card::{Card, CardColor, ColorableType, ColorlessCard, NUM_CARD_KINDS};

#[test]
fn rolls_pick_colors_and_faces() {
    assert_eq!(CardColor::from_roll(0), CardColor::Orange);
    assert_eq!(CardColor::from_roll(1), CardColor::Purple);
    assert_eq!(CardColor::from_roll(2), CardColor::Blue);
    assert_eq!(CardColor::from_roll(3), CardColor::Green);
    assert_eq!(ColorableType::from_roll(0), ColorableType::Zero);
    assert_eq!(ColorableType::from_roll(6), ColorableType::Zero);
    assert_eq!(ColorableType::from_roll(7), ColorableType::One);
    assert_eq!(ColorableType::from_roll(69), ColorableType::Nine);
    assert_eq!(ColorableType::from_roll(70), ColorableType::PlusThree);
    assert_eq!(ColorableType::from_roll(89), ColorableType::Reverse);
    assert_eq!(ColorableType::from_roll(90), ColorableType::Skip);
    assert_eq!(ColorableType::from_roll(99), ColorableType::Skip);
}

#[test]
fn draws_designate_cards() {
    assert_eq!(
        Card::from_draws(true, 2, 75, false),
        Card::Colored(CardColor::Blue, ColorableType::PlusThree)
    );
    assert_eq!(Card::from_draws(false, 0, 0, true), Card::Colorless(ColorlessCard::Random));
    assert_eq!(Card::from_draws(false, 3, 99, false), Card::Colorless(ColorlessCard::RandomPlusSix));
}

#[test]
fn card_ranks_cover_every_card_once() {
    let all: HashSet<Card> = (0..NUM_CARD_KINDS).map(Card::at_index).collect();
    assert_eq!(all.len(), NUM_CARD_KINDS);
    assert_eq!(Card::at_index(0), Card::Colorless(ColorlessCard::Random));
    assert_eq!(Card::at_index(2), Card::Colored(CardColor::Orange, ColorableType::Zero));
    assert_eq!(Card::at_index(53), Card::Colored(CardColor::Green, ColorableType::Skip));
}

#[test]
fn random_cards_vary() {
    let mut colors = HashSet::new();
    let mut faces = HashSet::new();
    let mut wild = 0;
    for _ in 0..2000 {
        match Card::random() {
            Card::Colored(c, f) => {
                colors.insert(c);
                faces.insert(f);
            }
            Card::Colorless(_) => wild += 1,
        }
    }
    assert_eq!(colors.len(), 4);
    assert!(faces.len() > 10);
    assert!(wild > 0 && wild < 2000);
}
