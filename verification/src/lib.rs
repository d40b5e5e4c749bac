//! Blackjack rules and table state: cards and shoes, hand totals, the
//! dealer's drawing policy, settlement of a round, and the key-driven
//! application state that a terminal front end drives.

pub mod cards;
pub mod game_state;
pub mod game_logic;
pub mod selection;
pub mod app;
pub mod laws;
