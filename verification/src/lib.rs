//! The deterministic mechanics of a 52-card deck and the hands dealt from
//! it: cards as rank-and-suit pairs with their point values, a deck that
//! shuffles a full set of 52 unique cards and deals them one at a time,
//! and hands that keep their cards in insertion order.

pub mod card;
pub mod deck;
pub mod hand;
