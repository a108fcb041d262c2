use vstd::prelude::*;
use vstd::string::StringExecFns;

verus! {

/// The rank of a playing card, ordered Ace through King.
#[derive(Debug, Clone, Copy, PartialEq, Eq, Structural)]
pub enum Rank {
    Ace,
    Two,
    Three,
    Four,
    Five,
    Six,
    Seven,
    Eight,
    Nine,
    Ten,
    Jack,
    Queen,
    King,
}

impl Rank {
    /// The base point value of a rank: Ace counts 1, the ten and the
    /// court cards count 10, every other rank counts its numeral.
    pub open spec fn base_value_spec(self) -> u8 {
        match self {
            Rank::Ace => 1,
            Rank::Two => 2,
            Rank::Three => 3,
            Rank::Four => 4,
            Rank::Five => 5,
            Rank::Six => 6,
            Rank::Seven => 7,
            Rank::Eight => 8,
            Rank::Nine => 9,
            Rank::Ten => 10,
            Rank::Jack => 10,
            Rank::Queen => 10,
            Rank::King => 10,
        }
    }

    /// Returns the base value of the rank (Ace=1, face cards=10, others=face value).
    pub fn base_value(&self) -> (r: u8)
        ensures
            r == self.base_value_spec(),
            1 <= r <= 10,
    {
        match self {
            Rank::Ace => 1,
            Rank::Two => 2,
            Rank::Three => 3,
            Rank::Four => 4,
            Rank::Five => 5,
            Rank::Six => 6,
            Rank::Seven => 7,
            Rank::Eight => 8,
            Rank::Nine => 9,
            Rank::Ten | Rank::Jack | Rank::Queen | Rank::King => 10,
        }
    }

    /// The characters of a rank's human-readable name.
    pub open spec fn label(self) -> Seq<char> {
        match self {
            Rank::Ace => "Ace"@,
            Rank::Two => "2"@,
            Rank::Three => "3"@,
            Rank::Four => "4"@,
            Rank::Five => "5"@,
            Rank::Six => "6"@,
            Rank::Seven => "7"@,
            Rank::Eight => "8"@,
            Rank::Nine => "9"@,
            Rank::Ten => "10"@,
            Rank::Jack => "Jack"@,
            Rank::Queen => "Queen"@,
            Rank::King => "King"@,
        }
    }

    /// Returns the rank's human-readable name, "Ace", "2", .. "King".
    pub fn name(&self) -> (r: String)
        ensures
            r@ == self.label(),
    {
        let s: &str = match self {
            Rank::Ace => "Ace",
            Rank::Two => "2",
            Rank::Three => "3",
            Rank::Four => "4",
            Rank::Five => "5",
            Rank::Six => "6",
            Rank::Seven => "7",
            Rank::Eight => "8",
            Rank::Nine => "9",
            Rank::Ten => "10",
            Rank::Jack => "Jack",
            Rank::Queen => "Queen",
            Rank::King => "King",
        };
        String::from_str(s)
    }

    /// The rank standing at position `i` of the canonical order.
    pub open spec fn rank_at(i: int) -> Rank {
        if i == 0 { Rank::Ace }
        else if i == 1 { Rank::Two }
        else if i == 2 { Rank::Three }
        else if i == 3 { Rank::Four }
        else if i == 4 { Rank::Five }
        else if i == 5 { Rank::Six }
        else if i == 6 { Rank::Seven }
        else if i == 7 { Rank::Eight }
        else if i == 8 { Rank::Nine }
        else if i == 9 { Rank::Ten }
        else if i == 10 { Rank::Jack }
        else if i == 11 { Rank::Queen }
        else { Rank::King }
    }

    /// The position of a rank in the canonical order; inverse of `rank_at`.
    pub open spec fn rank_index(self) -> int {
        match self {
            Rank::Ace => 0,
            Rank::Two => 1,
            Rank::Three => 2,
            Rank::Four => 3,
            Rank::Five => 4,
            Rank::Six => 5,
            Rank::Seven => 6,
            Rank::Eight => 7,
            Rank::Nine => 8,
            Rank::Ten => 9,
            Rank::Jack => 10,
            Rank::Queen => 11,
            Rank::King => 12,
        }
    }

    /// Returns all 13 ranks, in canonical order and without repetition.
    pub fn all() -> (r: [Rank; 13])
        ensures
            r@.len() == 13,
            forall|i: int| 0 <= i < 13 ==> r@[i] == Rank::rank_at(i),
    {
        let r = [
            Rank::Ace,
            Rank::Two,
            Rank::Three,
            Rank::Four,
            Rank::Five,
            Rank::Six,
            Rank::Seven,
            Rank::Eight,
            Rank::Nine,
            Rank::Ten,
            Rank::Jack,
            Rank::Queen,
            Rank::King,
        ];
        r
    }
}

/// The suit of a playing card.
#[derive(Debug, Clone, Copy, PartialEq, Eq, Structural)]
pub enum Suit {
    Hearts,
    Diamonds,
    Clubs,
    Spades,
}

impl Suit {
    /// The characters of a suit's human-readable name.
    pub open spec fn label(self) -> Seq<char> {
        match self {
            Suit::Hearts => "Hearts"@,
            Suit::Diamonds => "Diamonds"@,
            Suit::Clubs => "Clubs"@,
            Suit::Spades => "Spades"@,
        }
    }

    /// Returns the suit's human-readable name, "Hearts", "Diamonds",
    /// "Clubs" or "Spades".
    pub fn name(&self) -> (r: String)
        ensures
            r@ == self.label(),
    {
        let s: &str = match self {
            Suit::Hearts => "Hearts",
            Suit::Diamonds => "Diamonds",
            Suit::Clubs => "Clubs",
            Suit::Spades => "Spades",
        };
        String::from_str(s)
    }

    /// The suit standing at position `i` of the canonical order.
    pub open spec fn suit_at(i: int) -> Suit {
        if i == 0 { Suit::Hearts }
        else if i == 1 { Suit::Diamonds }
        else if i == 2 { Suit::Clubs }
        else { Suit::Spades }
    }

    /// The position of a suit in the canonical order; inverse of `suit_at`.
    pub open spec fn suit_index(self) -> int {
        match self {
            Suit::Hearts => 0,
            Suit::Diamonds => 1,
            Suit::Clubs => 2,
            Suit::Spades => 3,
        }
    }

    /// Returns all 4 suits, in canonical order and without repetition.
    pub fn all() -> (r: [Suit; 4])
        ensures
            r@.len() == 4,
            forall|i: int| 0 <= i < 4 ==> r@[i] == Suit::suit_at(i),
    {
        [Suit::Hearts, Suit::Diamonds, Suit::Clubs, Suit::Spades]
    }
}

/// A single playing card: an immutable rank and suit pair.
/// Two cards are equal exactly when both rank and suit match.
#[derive(Debug, Clone, Copy, PartialEq, Eq, Structural)]
pub struct Card {
    pub rank: Rank,
    pub suit: Suit,
}

impl Card {
    /// Creates a new card with the given rank and suit, preserved exactly.
    pub fn new(rank: Rank, suit: Suit) -> (c: Card)
        ensures
            c.rank == rank,
            c.suit == suit,
    {
        Card { rank, suit }
    }

    /// Returns the base value of the card: that of its rank.
    pub fn base_value(&self) -> (r: u8)
        ensures
            r == self.rank.base_value_spec(),
            1 <= r <= 10,
    {
        self.rank.base_value()
    }

    /// Returns the rank of the card.
    pub fn rank(&self) -> (r: Rank)
        ensures
            r == self.rank,
    {
        self.rank
    }

    /// Returns the suit of the card.
    pub fn suit(&self) -> (s: Suit)
        ensures
            s == self.suit,
    {
        self.suit
    }

    /// The characters of the card's rendering: "<Rank> of <Suit>".
    pub open spec fn label(self) -> Seq<char> {
        self.rank.label() + " of "@ + self.suit.label()
    }

    /// Renders the card for display, in the form "<Rank> of <Suit>",
    /// for example "Ace of Hearts".
    pub fn display_string(&self) -> (r: String)
        ensures
            r@ == self.label(),
    {
        let mut s = self.rank.name();
        s.append(" of ");
        s.append(self.suit.name().as_str());
        s
    }
}

} // verus!
