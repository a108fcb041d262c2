use pontoon::card::{Card, Rank, Suit};
use pontoon::hand::Hand;

#[test]
fn prop_new_hand_empty() {
    let hand = Hand::new();
    assert_eq!(hand.card_count(), 0);
    assert_eq!(hand.cards().len(), 0);
}

#[test]
fn test_add_cards_in_order() {
    let c1 = Card::new(Rank::Ace, Suit::Hearts);
    let c2 = Card::new(Rank::Ten, Suit::Clubs);
    let c3 = Card::new(Rank::Queen, Suit::Spades);
    let mut hand = Hand::new();
    hand.add_card(c1);
    assert_eq!(hand.card_count(), 1);
    hand.add_card(c2);
    assert_eq!(hand.card_count(), 2);
    hand.add_card(c3);
    assert_eq!(hand.card_count(), 3);
    assert_eq!(hand.cards(), &[c1, c2, c3]);
}

#[test]
fn test_add_zero_cards() {
    let hand = Hand::new();
    let empty: &[Card] = &[];
    assert_eq!(hand.cards(), empty);
}

#[test]
fn test_duplicates_are_legal() {
    let card = Card::new(Rank::Five, Suit::Diamonds);
    let mut hand = Hand::new();
    for _ in 0..4 {
        hand.add_card(card);
    }
    assert_eq!(hand.card_count(), 4);
    for held in hand.cards() {
        assert_eq!(*held, card);
    }
}

#[test]
fn test_clear_empties_hand() {
    let mut hand = Hand::new();
    hand.add_card(Card::new(Rank::Two, Suit::Hearts));
    hand.add_card(Card::new(Rank::Three, Suit::Hearts));
    hand.clear();
    assert_eq!(hand.card_count(), 0);
    assert_eq!(hand.cards().len(), 0);
}

#[test]
fn test_clear_idempotent() {
    let mut hand = Hand::new();
    hand.add_card(Card::new(Rank::King, Suit::Clubs));
    hand.clear();
    let after_first = hand.card_count();
    hand.clear();
    let after_second = hand.card_count();
    assert_eq!(after_first, after_second);
    assert_eq!(after_second, 0);
}

#[test]
fn test_hand_holds_many_cards() {
    let card = Card::new(Rank::Ace, Suit::Hearts);
    let mut hand = Hand::new();
    for _ in 0..100 {
        hand.add_card(card);
    }
    assert_eq!(hand.card_count(), 100);
}

#[test]
fn test_default_hand_empty() {
    let hand = Hand::default();
    assert_eq!(hand.card_count(), 0);
}
