//! Game rules of The Unreliable Fellowship: a caravan quest where wizards
//! move over a travelling board of event tiles, play cards and gather Glory.
pub mod text;
pub mod model;
pub mod cards;
pub mod messages;
pub mod rules;
pub mod game;
pub mod frame;
pub mod board;
pub mod invariants;
pub mod ai;
pub mod commands;
pub mod client;
pub mod laws;
pub mod outcomes;
