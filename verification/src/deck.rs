use vstd::prelude::*;

use crate::card::{Card, Rank, Suit};

verus! {

/// Declares rand's standard generator so a deck can own one; its state
/// stays opaque to the proofs.
#[verifier::external_type_specification]
#[verifier::external_body]
pub struct ExStdRng(rand::rngs::StdRng);

/// The order in which a seeded shuffle leaves the cards: a fixed function
/// of the starting order and the seed alone.
pub uninterp spec fn seeded_shuffle(cards: Seq<Card>, seed: u64) -> Seq<Card>;

/// Relies on rand's StdRng::from_entropy: a fresh generator seeded from
/// the operating system's entropy source.
#[verifier::external_body]
fn rng_from_entropy() -> rand::rngs::StdRng {
    rand::SeedableRng::from_entropy()
}

/// Relies on rand's SliceRandom::shuffle: an in-place Fisher-Yates pass
/// that reorders the slice and neither adds, drops nor duplicates an
/// element, so the contents stay the same multiset.
#[verifier::external_body]
fn shuffle_with_rng(cards: &mut Vec<Card>, rng: &mut rand::rngs::StdRng)
    ensures
        final(cards)@.to_multiset() == old(cards)@.to_multiset(),
{
    rand::seq::SliceRandom::shuffle(cards.as_mut_slice(), rng)
}

/// Relies on rand's StdRng::seed_from_u64 and SliceRandom::shuffle: the
/// seeding derives the generator's state from `seed` alone (rand documents
/// it as reproducible across runs and machines), and the shuffle is a
/// Fisher-Yates pass driven by that state, so the order it leaves is a
/// function of the starting order and the seed, and a permutation of the
/// starting order. The generator, advanced by the shuffle, is handed back.
#[verifier::external_body]
fn shuffle_from_seed(cards: &mut Vec<Card>, seed: u64) -> (rng: rand::rngs::StdRng)
    ensures
        final(cards)@ == seeded_shuffle(old(cards)@, seed),
        final(cards)@.to_multiset() == old(cards)@.to_multiset(),
{
    let mut rng: rand::rngs::StdRng = rand::SeedableRng::seed_from_u64(seed);
    rand::seq::SliceRandom::shuffle(cards.as_mut_slice(), &mut rng);
    rng
}

/// The canonical unshuffled order: all 52 rank-and-suit combinations,
/// grouped by suit, with ranks Ace through King inside each suit.
pub open spec fn standard_order() -> Seq<Card> {
    Seq::new(52, |i: int| Card { rank: Rank::rank_at(i % 13), suit: Suit::suit_at(i / 13) })
}

/// A full deck: exactly 52 cards, none of them twice, every combination
/// of rank and suit present.
pub open spec fn is_full_deck(s: Seq<Card>) -> bool {
    &&& s.len() == 52
    &&& s.no_duplicates()
    &&& forall|c: Card| s.contains(c)
}

/// Every rank comes back unchanged from a round trip through its position
/// in the canonical order.
proof fn lemma_rank_round_trip()
    ensures
        forall|r: Rank| 0 <= #[trigger] r.rank_index() < 13,
        forall|r: Rank| Rank::rank_at(#[trigger] r.rank_index()) == r,
{
}

/// Every suit comes back unchanged from a round trip through its position
/// in the canonical order.
proof fn lemma_suit_round_trip()
    ensures
        forall|s: Suit| 0 <= #[trigger] s.suit_index() < 4,
        forall|s: Suit| Suit::suit_at(#[trigger] s.suit_index()) == s,
{
}

/// The canonical order is a full deck.
pub proof fn lemma_standard_order_full()
    ensures
        is_full_deck(standard_order()),
{
    lemma_rank_round_trip();
    lemma_suit_round_trip();
    let s = standard_order();
    assert forall|i: int, j: int|
        0 <= i < s.len() && 0 <= j < s.len() && i != j implies s[i] != s[j] by {
        assert(s[i].rank == Rank::rank_at(i % 13) && s[i].suit == Suit::suit_at(i / 13));
        assert(s[j].rank == Rank::rank_at(j % 13) && s[j].suit == Suit::suit_at(j / 13));
        if s[i] == s[j] {
            assert(s[i].rank.rank_index() == i % 13 && s[i].suit.suit_index() == i / 13);
            assert(s[j].rank.rank_index() == j % 13 && s[j].suit.suit_index() == j / 13);
            assert(i == 13 * (i / 13) + i % 13);
            assert(j == 13 * (j / 13) + j % 13);
        }
    }
    assert forall|c: Card| s.contains(c) by {
        let i = 13 * c.suit.suit_index() + c.rank.rank_index();
        assert(0 <= i < 52);
        assert(i % 13 == c.rank.rank_index() && i / 13 == c.suit.suit_index()) by {
            assert(0 <= c.rank.rank_index() < 13);
            assert(0 <= c.suit.suit_index() < 4);
        }
        assert(s[i] == c);
    }
}

/// Permutation law: a reordering that keeps the multiset of cards keeps
/// every full-deck property: the count, the absence of duplicates, and
/// the presence of every combination.
pub proof fn lemma_full_deck_permutation(a: Seq<Card>, b: Seq<Card>)
    requires
        is_full_deck(a),
        a.to_multiset() == b.to_multiset(),
    ensures
        is_full_deck(b),
{
    a.to_multiset_ensures();
    b.to_multiset_ensures();
    a.lemma_multiset_has_no_duplicates();
    assert(b.len() == 52);
    assert forall|c: Card| b.contains(c) by {
        assert(a.contains(c));
        assert(a.to_multiset().count(c) > 0);
    }
    assert forall|x: Card| b.to_multiset().contains(x) implies b.to_multiset().count(x) == 1 by {
        assert(a.to_multiset().count(x) > 0);
        assert(a.contains(x));
    }
    b.lemma_multiset_has_no_duplicates_conv();
}

/// Builds the 52 standard combinations in the canonical order.
fn create_standard_deck() -> (r: Vec<Card>)
    ensures
        r@ == standard_order(),
{
    let suits = Suit::all();
    let ranks = Rank::all();
    let mut cards: Vec<Card> = Vec::with_capacity(52);
    let mut si: usize = 0;
    while si < 4
        invariant
            si <= 4,
            cards@.len() == 13 * si,
            forall|k: int| 0 <= k < cards@.len() ==> cards@[k] == standard_order()[k],
            suits@.len() == 4,
            forall|i: int| 0 <= i < 4 ==> suits@[i] == Suit::suit_at(i),
            ranks@.len() == 13,
            forall|i: int| 0 <= i < 13 ==> ranks@[i] == Rank::rank_at(i),
        decreases 4 - si,
    {
        let mut ri: usize = 0;
        while ri < 13
            invariant
                si < 4,
                ri <= 13,
                cards@.len() == 13 * si + ri,
                forall|k: int| 0 <= k < cards@.len() ==> cards@[k] == standard_order()[k],
                suits@.len() == 4,
                forall|i: int| 0 <= i < 4 ==> suits@[i] == Suit::suit_at(i),
                ranks@.len() == 13,
                forall|i: int| 0 <= i < 13 ==> ranks@[i] == Rank::rank_at(i),
            decreases 13 - ri,
        {
            let k: usize = cards.len();
            cards.push(Card::new(ranks[ri], suits[si]));
            proof {
                assert(k == 13 * si + ri);
                assert(k / 13 == si && k % 13 == ri);
                assert(cards@[k as int] == standard_order()[k as int]);
            }
            ri = ri + 1;
        }
        si = si + 1;
    }
    proof {
        assert(cards@ =~= standard_order());
    }
    cards
}

/// The number of remaining cards below which a deck wants reshuffling.
pub const RESHUFFLE_THRESHOLD: usize = 15;

/// An ordered deck of playing cards with its own random source. A fresh
/// deck is a shuffled permutation of the 52 standard combinations; deals
/// take one card at a time from the top until none remain.
pub struct Deck {
    cards: Vec<Card>,
    rng: rand::rngs::StdRng,
}

impl View for Deck {
    type V = Seq<Card>;

    closed spec fn view(&self) -> Seq<Card> {
        self.cards@
    }
}

impl Deck {
    /// Creates a standard 52-card deck, shuffled by a generator seeded
    /// from system entropy.
    pub fn new() -> (d: Deck)
        ensures
            is_full_deck(d@),
    {
        let mut cards = create_standard_deck();
        let mut rng = rng_from_entropy();
        proof {
            lemma_standard_order_full();
        }
        let ghost before = cards@;
        shuffle_with_rng(&mut cards, &mut rng);
        proof {
            lemma_full_deck_permutation(before, cards@);
        }
        Deck { cards, rng }
    }

    /// Creates a standard 52-card deck, shuffled by a generator derived
    /// from `seed` alone: the same seed always yields the same order.
    pub fn new_seeded(seed: u64) -> (d: Deck)
        ensures
            d@ == seeded_shuffle(standard_order(), seed),
            is_full_deck(d@),
    {
        let mut cards = create_standard_deck();
        proof {
            lemma_standard_order_full();
        }
        let ghost before = cards@;
        let rng = shuffle_from_seed(&mut cards, seed);
        proof {
            lemma_full_deck_permutation(before, cards@);
        }
        Deck { cards, rng }
    }

    /// Reorders the remaining cards in place with the deck's own
    /// generator; the set of cards is unchanged.
    pub fn shuffle(&mut self)
        ensures
            final(self)@.to_multiset() == old(self)@.to_multiset(),
            final(self)@.len() == old(self)@.len(),
            is_full_deck(old(self)@) ==> is_full_deck(final(self)@),
    {
        let ghost before = self.cards@;
        shuffle_with_rng(&mut self.cards, &mut self.rng);
        proof {
            before.to_multiset_ensures();
            self.cards@.to_multiset_ensures();
            if is_full_deck(before) {
                lemma_full_deck_permutation(before, self.cards@);
            }
        }
    }

    /// Removes and returns the card at the top of the deck, or nothing
    /// once the deck is depleted; a call removes at most one card.
    pub fn deal(&mut self) -> (r: Option<Card>)
        ensures
            old(self)@.len() > 0 ==> r == Some(old(self)@.last())
                && final(self)@ == old(self)@.drop_last(),
            old(self)@.len() == 0 ==> r is None && final(self)@ == old(self)@,
    {
        self.cards.pop()
    }

    /// Returns the exact number of cards left in the deck.
    pub fn cards_remaining(&self) -> (n: usize)
        ensures
            n == self@.len(),
    {
        self.cards.len()
    }

    /// Reports whether the deck has run low: true exactly when fewer than
    /// `RESHUFFLE_THRESHOLD` cards remain.
    pub fn needs_reshuffle(&self) -> (b: bool)
        ensures
            b == (self@.len() < RESHUFFLE_THRESHOLD),
    {
        self.cards.len() < RESHUFFLE_THRESHOLD
    }
}

impl Default for Deck {
    /// The default deck is an entropy-seeded one, as `Deck::new` builds it.
    fn default() -> (d: Deck)
        ensures
            is_full_deck(d@),
    {
        Deck::new()
    }
}

/// The first `k` cards that successive deals take from a deck whose cards
/// stand in order `s`: deals take from the top, the last card first.
pub open spec fn dealt_prefix(s: Seq<Card>, k: int) -> Seq<Card> {
    Seq::new(k as nat, |i: int| s[s.len() - 1 - i])
}

/// The cards still in a deck after `k` deals from order `s`.
pub open spec fn remaining_after(s: Seq<Card>, k: int) -> Seq<Card> {
    s.take(s.len() - k)
}

/// Determinism law: two decks built from the same seed hold the same
/// cards in the same order, so every prefix of deals matches card for
/// card between them.
pub proof fn lemma_seeded_deck_deterministic(d1: Seq<Card>, d2: Seq<Card>, seed: u64)
    requires
        d1 == seeded_shuffle(standard_order(), seed),
        d2 == seeded_shuffle(standard_order(), seed),
    ensures
        d1 == d2,
        forall|k: int| 0 <= k <= d1.len() ==> dealt_prefix(d1, k) == dealt_prefix(d2, k),
{
}

/// Counting law: after `k` deals from order `s` exactly `len - k` cards
/// remain, and the next deal leaves the remainder after `k + 1` deals.
pub proof fn lemma_deal_counts_down(s: Seq<Card>, k: int)
    requires
        0 <= k < s.len(),
    ensures
        remaining_after(s, k).len() == s.len() - k,
        remaining_after(s, k).drop_last() == remaining_after(s, k + 1),
{
    assert(remaining_after(s, k).drop_last() =~= remaining_after(s, k + 1));
}

/// Exhaustion law: dealing out all 52 cards of a full deck yields 52
/// pairwise distinct cards that cover every rank-and-suit combination.
pub proof fn lemma_deal_out_full_deck(s: Seq<Card>)
    requires
        is_full_deck(s),
    ensures
        dealt_prefix(s, 52).len() == 52,
        dealt_prefix(s, 52).no_duplicates(),
        forall|c: Card| dealt_prefix(s, 52).contains(c),
        remaining_after(s, 52).len() == 0,
{
    let d = dealt_prefix(s, 52);
    assert forall|i: int, j: int|
        0 <= i < d.len() && 0 <= j < d.len() && i != j implies d[i] != d[j] by {
        assert(d[i] == s[51 - i] && d[j] == s[51 - j]);
    }
    assert forall|c: Card| d.contains(c) by {
        assert(s.contains(c));
        let i = choose|i: int| 0 <= i < s.len() && s[i] == c;
        assert(d[51 - i] == c);
    }
}

} // verus!
