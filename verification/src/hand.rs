use vstd::prelude::*;

use crate::card::Card;

verus! {

/// The contents of a hand after `clear`: empty, whatever it held before.
pub open spec fn cleared(s: Seq<Card>) -> Seq<Card> {
    Seq::empty()
}

/// The contents of a hand that started empty and had the cards of `added`
/// appended to it one at a time, in order.
pub open spec fn added_in_order(added: Seq<Card>) -> Seq<Card>
    decreases added.len(),
{
    if added.len() == 0 {
        Seq::empty()
    } else {
        added_in_order(added.drop_last()).push(added.last())
    }
}

/// Order law: appending cards c1..cn one at a time to a new hand leaves
/// exactly [c1..cn], in that order, with a count of n.
pub proof fn lemma_added_in_order(added: Seq<Card>)
    ensures
        added_in_order(added) == added,
        added_in_order(added).len() == added.len(),
    decreases added.len(),
{
    if added.len() == 0 {
        assert(added_in_order(added) =~= added);
    } else {
        lemma_added_in_order(added.drop_last());
        assert(added_in_order(added) =~= added);
    }
}

/// Idempotence law: clearing a hand that a clear just emptied changes
/// nothing, and either way no cards remain.
pub proof fn lemma_clear_idempotent(s: Seq<Card>)
    ensures
        cleared(cleared(s)) == cleared(s),
        cleared(s).len() == 0,
{
}

/// An ordered, growable collection of cards held by one participant.
/// Duplicates are legal; there is no upper bound on size.
#[derive(Debug, Clone)]
pub struct Hand {
    cards: Vec<Card>,
}

impl View for Hand {
    type V = Seq<Card>;

    closed spec fn view(&self) -> Seq<Card> {
        self.cards@
    }
}

impl Hand {
    /// Creates a new empty hand.
    pub fn new() -> (h: Hand)
        ensures
            h@ == Seq::<Card>::empty(),
            h@.len() == 0,
    {
        Hand { cards: Vec::new() }
    }

    /// Appends a card at the end of the hand.
    pub fn add_card(&mut self, card: Card)
        ensures
            final(self)@ == old(self)@.push(card),
            final(self)@.len() == old(self)@.len() + 1,
    {
        self.cards.push(card);
    }

    /// Returns the number of cards in the hand.
    pub fn card_count(&self) -> (n: usize)
        ensures
            n == self@.len(),
    {
        self.cards.len()
    }

    /// Returns a read-only view of the cards, in insertion order.
    pub fn cards(&self) -> (r: &[Card])
        ensures
            r@ == self@,
    {
        self.cards.as_slice()
    }

    /// Removes every card from the hand.
    pub fn clear(&mut self)
        ensures
            final(self)@ == cleared(old(self)@),
            final(self)@.len() == 0,
    {
        self.cards.clear();
    }
}

impl Default for Hand {
    /// The default hand is empty, as `Hand::new` builds it.
    fn default() -> (h: Hand)
        ensures
            h@ == Seq::<Card>::empty(),
    {
        Hand::new()
    }
}

} // verus!
