use vstd::prelude::*;

verus! {

/// The four colors a colored card can carry.
#[derive(Debug, Clone, Copy, PartialEq, Eq, Hash, PartialOrd, Ord, Structural)]
pub enum CardColor {
    Orange,
    Purple,
    Blue,
    Green,
}

/// The faces a colored card can show.
#[derive(Debug, Clone, Copy, PartialEq, Eq, Hash, PartialOrd, Ord, Structural)]
pub enum ColorableType {
    Zero,
    One,
    Two,
    Three,
    Four,
    Five,
    Six,
    Seven,
    Eight,
    Nine,
    PlusThree,
    Reverse,
    Skip,
}

/// The wild cards, which carry no color of their own.
#[derive(Debug, Clone, Copy, PartialEq, Eq, Hash, PartialOrd, Ord, Structural)]
pub enum ColorlessCard {
    Random,
    RandomPlusSix,
}

/// Represents an individual card in a game.
/// Each card is either Colored, and has an associated CardColor and CardType,
/// or is Colorless, and has an associated ColorlessCard.
#[derive(Debug, Clone, Copy, PartialEq, Eq, Hash, PartialOrd, Ord, Structural)]
pub enum Card {
    Colorless(ColorlessCard),
    Colored(CardColor, ColorableType),
}

/// How many colors there are: a color roll lies in `0..NUM_COLORS`.
pub const NUM_COLORS: u32 = 4;

/// A face roll lies in `0..FACE_ROLLS`; `face_of_roll` gives each face its share.
pub const FACE_ROLLS: u32 = 100;

/// The odds of `Card::random` are counted out of `ODDS_OUT_OF`.
pub const ODDS_OUT_OF: u32 = 10;

/// Out of `ODDS_OUT_OF` cards that `Card::random` draws, this many are colored.
pub const COLORED_ODDS: u32 = 9;

/// Out of `ODDS_OUT_OF` wild cards that `Card::random` draws, this many are plain wild cards
/// and the rest are wild +6.
pub const PLAIN_WILD_ODDS: u32 = 6;

/// The color picked by a roll in `0..NUM_COLORS`.
pub open spec fn color_of_roll(roll: int) -> CardColor {
    if roll == 0 {
        CardColor::Orange
    } else if roll == 1 {
        CardColor::Purple
    } else if roll == 2 {
        CardColor::Blue
    } else {
        CardColor::Green
    }
}

/// The face picked by a roll in `0..100`: each number has weight 7, each action card weight 10.
pub open spec fn face_of_roll(roll: int) -> ColorableType {
    if roll <= 6 {
        ColorableType::Zero
    } else if roll <= 13 {
        ColorableType::One
    } else if roll <= 20 {
        ColorableType::Two
    } else if roll <= 27 {
        ColorableType::Three
    } else if roll <= 34 {
        ColorableType::Four
    } else if roll <= 41 {
        ColorableType::Five
    } else if roll <= 48 {
        ColorableType::Six
    } else if roll <= 55 {
        ColorableType::Seven
    } else if roll <= 62 {
        ColorableType::Eight
    } else if roll <= 69 {
        ColorableType::Nine
    } else if roll <= 79 {
        ColorableType::PlusThree
    } else if roll <= 89 {
        ColorableType::Reverse
    } else {
        ColorableType::Skip
    }
}

/// The card that the random draws of `Card::random` designate.
pub open spec fn card_of_draws(colored: bool, color_roll: int, face_roll: int, plain_wild: bool) -> Card {
    if colored {
        Card::Colored(color_of_roll(color_roll), face_of_roll(face_roll))
    } else if plain_wild {
        Card::Colorless(ColorlessCard::Random)
    } else {
        Card::Colorless(ColorlessCard::RandomPlusSix)
    }
}

impl CardColor {
    /// Picks the color that a roll in `0..NUM_COLORS` designates.
    pub fn from_roll(roll: u32) -> (color: CardColor)
        requires
            roll < NUM_COLORS,
        ensures
            color == color_of_roll(roll as int),
    {
        if roll == 0 {
            CardColor::Orange
        } else if roll == 1 {
            CardColor::Purple
        } else if roll == 2 {
            CardColor::Blue
        } else {
            CardColor::Green
        }
    }
}

impl ColorableType {
    /// Picks the face that a roll in `0..FACE_ROLLS` designates.
    pub fn from_roll(roll: u32) -> (face: ColorableType)
        requires
            roll < FACE_ROLLS,
        ensures
            face == face_of_roll(roll as int),
    {
        if roll <= 6 {
            ColorableType::Zero
        } else if roll <= 13 {
            ColorableType::One
        } else if roll <= 20 {
            ColorableType::Two
        } else if roll <= 27 {
            ColorableType::Three
        } else if roll <= 34 {
            ColorableType::Four
        } else if roll <= 41 {
            ColorableType::Five
        } else if roll <= 48 {
            ColorableType::Six
        } else if roll <= 55 {
            ColorableType::Seven
        } else if roll <= 62 {
            ColorableType::Eight
        } else if roll <= 69 {
            ColorableType::Nine
        } else if roll <= 79 {
            ColorableType::PlusThree
        } else if roll <= 89 {
            ColorableType::Reverse
        } else {
            ColorableType::Skip
        }
    }
}

} // verus!

verus! {

/// The number of distinct cards.
pub const NUM_CARD_KINDS: usize = 54;

/// Position of a color in declaration order.
pub open spec fn color_index(c: CardColor) -> int {
    match c {
        CardColor::Orange => 0,
        CardColor::Purple => 1,
        CardColor::Blue => 2,
        CardColor::Green => 3,
    }
}

/// Position of a face in declaration order.
pub open spec fn face_index(f: ColorableType) -> int {
    match f {
        ColorableType::Zero => 0,
        ColorableType::One => 1,
        ColorableType::Two => 2,
        ColorableType::Three => 3,
        ColorableType::Four => 4,
        ColorableType::Five => 5,
        ColorableType::Six => 6,
        ColorableType::Seven => 7,
        ColorableType::Eight => 8,
        ColorableType::Nine => 9,
        ColorableType::PlusThree => 10,
        ColorableType::Reverse => 11,
        ColorableType::Skip => 12,
    }
}

/// The face at a position in declaration order.
pub open spec fn face_at(i: int) -> ColorableType {
    if i == 0 {
        ColorableType::Zero
    } else if i == 1 {
        ColorableType::One
    } else if i == 2 {
        ColorableType::Two
    } else if i == 3 {
        ColorableType::Three
    } else if i == 4 {
        ColorableType::Four
    } else if i == 5 {
        ColorableType::Five
    } else if i == 6 {
        ColorableType::Six
    } else if i == 7 {
        ColorableType::Seven
    } else if i == 8 {
        ColorableType::Eight
    } else if i == 9 {
        ColorableType::Nine
    } else if i == 10 {
        ColorableType::PlusThree
    } else if i == 11 {
        ColorableType::Reverse
    } else {
        ColorableType::Skip
    }
}

/// The rank of a card in the order in which cards are listed: the two wild cards first,
/// then the colored cards by color, then by face.
pub open spec fn card_index(c: Card) -> int {
    match c {
        Card::Colorless(ColorlessCard::Random) => 0,
        Card::Colorless(ColorlessCard::RandomPlusSix) => 1,
        Card::Colored(color, face) => 2 + 13 * color_index(color) + face_index(face),
    }
}

/// The card of a given rank; the inverse of `card_index` on `0..NUM_CARD_KINDS`.
pub open spec fn card_at(i: int) -> Card {
    if i == 0 {
        Card::Colorless(ColorlessCard::Random)
    } else if i == 1 {
        Card::Colorless(ColorlessCard::RandomPlusSix)
    } else if i < 15 {
        Card::Colored(CardColor::Orange, face_at(i - 2))
    } else if i < 28 {
        Card::Colored(CardColor::Purple, face_at(i - 15))
    } else if i < 41 {
        Card::Colored(CardColor::Blue, face_at(i - 28))
    } else {
        Card::Colored(CardColor::Green, face_at(i - 41))
    }
}

/// Ranks are a bijection between cards and `0..NUM_CARD_KINDS`.
pub proof fn lemma_card_index_bijective(c: Card, i: int)
    ensures
        0 <= card_index(c) < NUM_CARD_KINDS,
        card_at(card_index(c)) == c,
        0 <= i < NUM_CARD_KINDS ==> card_index(card_at(i)) == i,
{
}

impl ColorableType {
    /// The face at a position in declaration order.
    fn at(i: usize) -> (face: ColorableType)
        requires
            i < 13,
        ensures
            face == face_at(i as int),
    {
        if i == 0 {
            ColorableType::Zero
        } else if i == 1 {
            ColorableType::One
        } else if i == 2 {
            ColorableType::Two
        } else if i == 3 {
            ColorableType::Three
        } else if i == 4 {
            ColorableType::Four
        } else if i == 5 {
            ColorableType::Five
        } else if i == 6 {
            ColorableType::Six
        } else if i == 7 {
            ColorableType::Seven
        } else if i == 8 {
            ColorableType::Eight
        } else if i == 9 {
            ColorableType::Nine
        } else if i == 10 {
            ColorableType::PlusThree
        } else if i == 11 {
            ColorableType::Reverse
        } else {
            ColorableType::Skip
        }
    }
}

impl Card {
    /// The card of rank `i` in listing order.
    pub fn at_index(i: usize) -> (card: Card)
        requires
            i < NUM_CARD_KINDS,
        ensures
            card == card_at(i as int),
            card_index(card) == i,
    {
        if i == 0 {
            Card::Colorless(ColorlessCard::Random)
        } else if i == 1 {
            Card::Colorless(ColorlessCard::RandomPlusSix)
        } else if i < 15 {
            Card::Colored(CardColor::Orange, ColorableType::at(i - 2))
        } else if i < 28 {
            Card::Colored(CardColor::Purple, ColorableType::at(i - 15))
        } else if i < 41 {
            Card::Colored(CardColor::Blue, ColorableType::at(i - 28))
        } else {
            Card::Colored(CardColor::Green, ColorableType::at(i - 41))
        }
    }

    /// The card that given draws designate: a colored card of the rolled color and face
    /// when `colored`, otherwise a plain wild card when `plain_wild`, else a wild +6.
    pub fn from_draws(colored: bool, color_roll: u32, face_roll: u32, plain_wild: bool) -> (card: Card)
        requires
            color_roll < NUM_COLORS,
            face_roll < FACE_ROLLS,
        ensures
            card == card_of_draws(colored, color_roll as int, face_roll as int, plain_wild),
    {
        if colored {
            Card::Colored(CardColor::from_roll(color_roll), ColorableType::from_roll(face_roll))
        } else if plain_wild {
            Card::Colorless(ColorlessCard::Random)
        } else {
            Card::Colorless(ColorlessCard::RandomPlusSix)
        }
    }

    /// Draws a random card: colored with odds `COLORED_ODDS` in `ODDS_OUT_OF` (a uniform
    /// color roll in `0..NUM_COLORS` and a face roll in `0..FACE_ROLLS`, which `face_of_roll`
    /// weighs: 7 for each number, 10 for each action face), otherwise a wild card, plain with
    /// odds `PLAIN_WILD_ODDS` in `ODDS_OUT_OF` and +6 otherwise. The card is the one that
    /// `card_of_draws` designates for the draws made; which draws come is left to chance.
    pub fn random() -> (card: Card)
        ensures
            exists|colored: bool, color_roll: int, face_roll: int, plain_wild: bool|
                {
                    &&& 0 <= color_roll < NUM_COLORS
                    &&& 0 <= face_roll < FACE_ROLLS
                    &&& card == #[trigger] card_of_draws(colored, color_roll, face_roll, plain_wild)
                },
    {
        let mut rng = crate::random::thread_rng();
        if crate::random::gen_ratio(&mut rng, COLORED_ODDS, ODDS_OUT_OF) {
            let color_roll = crate::random::gen_below(&mut rng, NUM_COLORS);
            let face_roll = crate::random::gen_below(&mut rng, FACE_ROLLS);
            Card::from_draws(true, color_roll, face_roll, false)
        } else {
            let plain_wild = crate::random::gen_ratio(&mut rng, PLAIN_WILD_ODDS, ODDS_OUT_OF);
            Card::from_draws(false, 0, 0, plain_wild)
        }
    }
}

} // verus!
