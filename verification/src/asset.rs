//! Which picture shows a card, and how it is tinted.
use crate::card::{Card, CardColor, ColorableType, ColorlessCard};
use vstd::prelude::*;

verus! {

/// A picture of a card: the asset file it is drawn from, and the color it is tinted with
/// (none for a picture shown as it is).
#[derive(Debug, Clone, Copy, PartialEq, Eq)]
pub struct CardImage {
    pub asset: &'static str,
    pub tint: Option<(u8, u8, u8)>,
}

/// The red, green and blue of a card color on screen.
pub open spec fn color_rgb(color: CardColor) -> (u8, u8, u8) {
    match color {
        CardColor::Orange => (240, 183, 61),
        CardColor::Blue => (140, 225, 252),
        CardColor::Green => (30, 245, 62),
        CardColor::Purple => (237, 101, 246),
    }
}

/// The asset file of a colored card's face.
pub open spec fn face_asset(face: ColorableType) -> Seq<char> {
    match face {
        ColorableType::Zero => "CardZero.png"@,
        ColorableType::One => "CardOne.png"@,
        ColorableType::Two => "CardTwo.png"@,
        ColorableType::Three => "CardThree.png"@,
        ColorableType::Four => "CardFour.png"@,
        ColorableType::Five => "CardFive.png"@,
        ColorableType::Six => "CardSix.png"@,
        ColorableType::Seven => "CardSeven.png"@,
        ColorableType::Eight => "CardEight.png"@,
        ColorableType::Nine => "CardNine.png"@,
        ColorableType::PlusThree => "CardPlusThree.png"@,
        ColorableType::Reverse => "CardReverse.png"@,
        ColorableType::Skip => "CardSkip.png"@,
    }
}

/// The asset file that shows `card` while `active` is the color in force: a colored card by
/// its face; a wild card blank (to be tinted) when a color is in force, with its own colors
/// otherwise.
pub open spec fn card_asset(card: Card, active: Option<CardColor>) -> Seq<char> {
    match card {
        Card::Colored(_, face) => face_asset(face),
        Card::Colorless(wild) => match (active, wild) {
            (Some(_), ColorlessCard::Random) => "CardRandomBlank.png"@,
            (Some(_), ColorlessCard::RandomPlusSix) => "CardRandomPlusSixBlank.png"@,
            (None, ColorlessCard::Random) => "CardRandom.png"@,
            (None, ColorlessCard::RandomPlusSix) => "CardRandomPlusSix.png"@,
        },
    }
}

/// The tint of `card`'s picture: its own color for a colored card, the color in force for a
/// wild card, white when no color is in force.
pub open spec fn card_tint(card: Card, active: Option<CardColor>) -> (u8, u8, u8) {
    match card {
        Card::Colored(color, _) => color_rgb(color),
        Card::Colorless(_) => match active {
            Some(color) => color_rgb(color),
            None => (255, 255, 255),
        },
    }
}

/// The red, green and blue of a card color on screen.
pub fn get_color32(color: &CardColor) -> (rgb: (u8, u8, u8))
    ensures
        rgb == color_rgb(*color),
{
    match color {
        CardColor::Orange => (240, 183, 61),
        CardColor::Blue => (140, 225, 252),
        CardColor::Green => (30, 245, 62),
        CardColor::Purple => (237, 101, 246),
    }
}

fn face_image(face: &ColorableType) -> (asset: &'static str)
    ensures
        asset@ == face_asset(*face),
{
    match face {
        ColorableType::Zero => "CardZero.png",
        ColorableType::One => "CardOne.png",
        ColorableType::Two => "CardTwo.png",
        ColorableType::Three => "CardThree.png",
        ColorableType::Four => "CardFour.png",
        ColorableType::Five => "CardFive.png",
        ColorableType::Six => "CardSix.png",
        ColorableType::Seven => "CardSeven.png",
        ColorableType::Eight => "CardEight.png",
        ColorableType::Nine => "CardNine.png",
        ColorableType::PlusThree => "CardPlusThree.png",
        ColorableType::Reverse => "CardReverse.png",
        ColorableType::Skip => "CardSkip.png",
    }
}

/// The picture of `card` while `active_color` is the color in force.
pub fn get_card_image(card: &Card, active_color: &Option<CardColor>) -> (image: CardImage)
    ensures
        image.asset@ == card_asset(*card, *active_color),
        image.tint == Some(card_tint(*card, *active_color)),
{
    match card {
        Card::Colored(color, face) => CardImage { asset: face_image(face), tint: Some(get_color32(color)) },
        Card::Colorless(wild) => match active_color {
            Some(color) => CardImage {
                asset: match wild {
                    ColorlessCard::Random => "CardRandomBlank.png",
                    ColorlessCard::RandomPlusSix => "CardRandomPlusSixBlank.png",
                },
                tint: Some(get_color32(color)),
            },
            None => CardImage {
                asset: match wild {
                    ColorlessCard::Random => "CardRandom.png",
                    ColorlessCard::RandomPlusSix => "CardRandomPlusSix.png",
                },
                tint: Some((255, 255, 255)),
            },
        },
    }
}

/// The picture of the back of a card, shown as it is.
pub fn card_back_image() -> (image: CardImage)
    ensures
        image.asset@ == "CardBack.png"@,
        image.tint is None,
{
    CardImage { asset: "CardBack.png", tint: None }
}

} // verus!
