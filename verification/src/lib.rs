//! Game logic, turn rules and server-side bookkeeping for the card game "Eins".
pub mod card;
pub mod client;
pub mod connections;
pub mod game;
pub mod invalid_action;
pub mod player;
pub mod protocol;
mod random;
pub mod server;
pub mod debug_cli;
pub mod laws;
pub mod asset;
pub mod ui;
pub mod lobby;
