//! A blackjack round engine and a basic-strategy advisor.
//!
//! `card` scores cards and hands, `shoe` deals from a shuffled multi-deck
//! shoe, `game` runs one round between a player and the dealer, and
//! `strategy` recommends an action from three fixed decision tables.

pub mod card;
pub mod shoe;
pub mod game;
pub mod strategy;
