use crate::card::{Card, CardColor};
use vstd::prelude::*;

verus! {

/// Why the server refused a request.
#[derive(Debug, Clone, Copy, PartialEq, Eq, Structural)]
pub enum ErrorResponse {
    UsernameInUse,
    GameIsFull,
    GameHasBegun,
    NotInGame,
    GameNotStarted,
    InvalidAction,
    GameAlreadyStarted,
    FailedToStartGame,
}

/// What one player is shown of a game: the shared table and their own hand.
/// `card_counts` gives each player's number of cards in seat order, `hand` lists the
/// player's cards with their counts.
#[derive(Debug, Clone)]
pub struct GameState {
    pub current_player: String,
    pub is_clockwise: bool,
    pub top_card: Card,
    pub winner: Option<String>,
    pub active_color: Option<CardColor>,
    pub card_counts: Vec<(String, i64)>,
    pub player_order: Vec<String>,
    pub hand: Vec<(Card, i64)>,
}

/// What the server tells one connected client: the game as that client sees it (if a game
/// runs), the registered usernames, and the client's own username.
#[derive(Debug, Clone)]
pub struct ServerState {
    pub game_state: Option<GameState>,
    pub usernames: Vec<String>,
    pub client_username: String,
}

/// A message from the server to a client.
#[derive(Debug, Clone)]
pub enum ServerToClient {
    StateUpdate(ServerState),
    Error(ErrorResponse),
}

/// A request from a client to the server.
#[derive(Debug, Clone, PartialEq, Eq)]
pub enum ClientToServer {
    RegisterUsername(String),
    PlayCard(Card),
    DrawCard,
}

/// A request from the hosting client to manage the server.
#[derive(Debug, Clone, Copy, PartialEq, Eq, Structural)]
pub enum ManageServer {
    StartGame,
}

} // verus!
