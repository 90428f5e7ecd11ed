//! Rules of contract bridge for a four-seat card table: the cards, the
//! seats, the auction, the play of the tricks and the score.

pub mod cards;
pub mod seats;
pub mod bids;
pub mod phases;
pub mod deck;
pub mod game;
pub mod auction;
pub mod trick;
pub mod scoring;
pub mod play;
pub mod engine;
pub mod display;
pub mod account;
pub mod lobby;
