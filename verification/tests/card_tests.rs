use pontoon::card::{Card, Rank, Suit};

#[test]
fn test_all_ranks_count() {
    let ranks = Rank::all();
    assert_eq!(ranks.len(), 13, "Should have exactly 13 ranks");
}

#[test]
fn test_all_suits_count() {
    let suits = Suit::all();
    assert_eq!(suits.len(), 4, "Should have exactly 4 suits");
}

#[test]
fn test_all_ranks_unique() {
    let ranks = Rank::all();
    for i in 0..ranks.len() {
        for j in (i + 1)..ranks.len() {
            assert_ne!(ranks[i], ranks[j], "Ranks at {} and {} should be different", i, j);
        }
    }
}

#[test]
fn test_all_suits_unique() {
    let suits = Suit::all();
    for i in 0..suits.len() {
        for j in (i + 1)..suits.len() {
            assert_ne!(suits[i], suits[j], "Suits at {} and {} should be different", i, j);
        }
    }
}

#[test]
fn test_base_values_exact() {
    assert_eq!(Rank::Ace.base_value(), 1);
    assert_eq!(Rank::Two.base_value(), 2);
    assert_eq!(Rank::Three.base_value(), 3);
    assert_eq!(Rank::Four.base_value(), 4);
    assert_eq!(Rank::Five.base_value(), 5);
    assert_eq!(Rank::Six.base_value(), 6);
    assert_eq!(Rank::Seven.base_value(), 7);
    assert_eq!(Rank::Eight.base_value(), 8);
    assert_eq!(Rank::Nine.base_value(), 9);
    assert_eq!(Rank::Ten.base_value(), 10);
    assert_eq!(Rank::Jack.base_value(), 10);
    assert_eq!(Rank::Queen.base_value(), 10);
    assert_eq!(Rank::King.base_value(), 10);
}

#[test]
fn test_card_preserves_rank_and_suit() {
    let card = Card::new(Rank::Queen, Suit::Diamonds);
    assert_eq!(card.rank(), Rank::Queen);
    assert_eq!(card.suit(), Suit::Diamonds);
    assert_eq!(card.base_value(), 10);
}

#[test]
fn test_card_equality_structural() {
    let a = Card::new(Rank::Seven, Suit::Clubs);
    let b = Card::new(Rank::Seven, Suit::Clubs);
    let c = Card::new(Rank::Seven, Suit::Spades);
    let d = Card::new(Rank::Eight, Suit::Clubs);
    assert_eq!(a, b);
    assert_ne!(a, c);
    assert_ne!(a, d);
}

#[test]
fn test_rank_names() {
    assert_eq!(Rank::Ace.name(), "Ace");
    assert_eq!(Rank::Two.name(), "2");
    assert_eq!(Rank::Nine.name(), "9");
    assert_eq!(Rank::Ten.name(), "10");
    assert_eq!(Rank::Jack.name(), "Jack");
    assert_eq!(Rank::Queen.name(), "Queen");
    assert_eq!(Rank::King.name(), "King");
}

#[test]
fn test_suit_names() {
    assert_eq!(Suit::Hearts.name(), "Hearts");
    assert_eq!(Suit::Diamonds.name(), "Diamonds");
    assert_eq!(Suit::Clubs.name(), "Clubs");
    assert_eq!(Suit::Spades.name(), "Spades");
}

#[test]
fn test_card_display_string() {
    assert_eq!(Card::new(Rank::Ace, Suit::Hearts).display_string(), "Ace of Hearts");
    assert_eq!(Card::new(Rank::Ten, Suit::Clubs).display_string(), "10 of Clubs");
    assert_eq!(Card::new(Rank::King, Suit::Spades).display_string(), "King of Spades");
}
