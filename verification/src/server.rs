//! The server's bookkeeping: who is connected under which name, and the game they play.
pub mod server_error;

pub use server_error::ServerError;

use crate::card::Card;
use crate::connections::{
    connection_pairs, connections_contains_left, connections_contains_right, connections_entries,
    connections_get_by_right, connections_insert, connections_new, connections_remove_by_right, without_id,
};
use crate::game::{has_player, Game, GameView};
use crate::protocol::{self, ClientToServer, ErrorResponse, ManageServer, ServerToClient};
use bimap::BiHashMap;
use vstd::prelude::*;

verus! {

/// The server's state: the live connections (username to connection id), every username
/// registered so far (in order of registration), and the game once it has started.
#[derive(Debug)]
pub struct ServerState {
    current_connections: BiHashMap<String, usize>,
    usernames: Vec<String>,
    game: Option<Game>,
}

/// What the server's state is.
pub struct ServerView {
    pub connections: Map<Seq<char>, usize>,
    pub usernames: Seq<Seq<char>>,
    pub game: Option<GameView>,
}

impl View for ServerState {
    type V = ServerView;

    closed spec fn view(&self) -> ServerView {
        ServerView {
            connections: connection_pairs(self.current_connections),
            usernames: self.usernames@.map_values(|s: String| s@),
            game: match self.game {
                Some(g) => Some(g@),
                None => None,
            },
        }
    }
}

/// The username connected under `id` (meaningful when there is one).
pub open spec fn user_of(connections: Map<Seq<char>, usize>, id: usize) -> Seq<char> {
    choose|k: Seq<char>| connections.dom().contains(k) && connections[k] == id
}

impl ServerView {
    /// Names are registered once, every connected name is registered, no two names share a
    /// connection, and a running game is well formed.
    pub open spec fn wf(self) -> bool {
        &&& self.usernames.no_duplicates()
        &&& forall|k: Seq<char>| #[trigger] self.connections.dom().contains(k) ==> self.usernames.contains(k)
        &&& self.connections.is_injective()
        &&& self.game matches Some(g) ==> g.wf()
    }

    /// The counts shown to players fit in an `i64`.
    pub open spec fn counts_fit(self) -> bool {
        self.game matches Some(g) ==> g.counts_fit()
    }

    /// Why the connection `id` may not register `name`, if it may not: the name is already
    /// connected, the connection already has a name, or the game has begun.
    pub open spec fn register_check(self, id: usize, name: Seq<char>) -> Result<(), ErrorResponse> {
        if self.usernames.contains(name) && self.connections.dom().contains(name) {
            Err(ErrorResponse::UsernameInUse)
        } else if self.connections.contains_value(id) {
            Err(ErrorResponse::InvalidAction)
        } else if self.game is Some {
            Err(ErrorResponse::GameHasBegun)
        } else {
            Ok(())
        }
    }

    /// The usernames with `name` added unless it is there already.
    pub open spec fn with_username(self, name: Seq<char>) -> Seq<Seq<char>> {
        if self.usernames.contains(name) {
            self.usernames
        } else {
            self.usernames.push(name)
        }
    }

    /// `after` and `result` are what registering `name` for connection `id` gives: the result
    /// is `register_check`; a refusal changes nothing; success records the name (once) and
    /// connects it under `id`.
    pub open spec fn register_outcome(self, after: ServerView, id: usize, name: Seq<char>, result: Result<(), ErrorResponse>) -> bool {
        &&& result == self.register_check(id, name)
        &&& result is Err ==> after == self
        &&& result is Ok ==> after == ServerView {
            usernames: self.with_username(name),
            connections: self.connections.insert(name, id),
            game: self.game,
        }
    }

    /// `after` and `result` are a possible outcome of connection `id` playing `card`: an
    /// unknown connection gets `NotInGame`, no game gives `GameNotStarted`, a play the game
    /// refuses gives `InvalidAction` (each changing nothing); otherwise the game moves on as
    /// `GameView::play_outcome` allows. Connections and usernames stay as they are.
    pub open spec fn play_outcome(self, after: ServerView, id: usize, card: Card, result: Result<(), ErrorResponse>) -> bool {
        &&& after.connections == self.connections
        &&& after.usernames == self.usernames
        &&& !self.connections.contains_value(id) ==> result == Err::<(), ErrorResponse>(ErrorResponse::NotInGame)
            && after == self
        &&& self.connections.contains_value(id) && self.game is None ==> result == Err::<(), ErrorResponse>(
            ErrorResponse::GameNotStarted,
        ) && after == self
        &&& self.game matches Some(g) ==> (self.connections.contains_value(id) ==> {
            let name = user_of(self.connections, id);
            &&& g.play_check(name, card) is Err ==> result == Err::<(), ErrorResponse>(
                ErrorResponse::InvalidAction,
            ) && after == self
            &&& g.play_check(name, card) is Ok ==> result is Ok && after.game is Some
                && g.play_outcome(after.game.unwrap(), name, card, Ok(()))
        })
    }

    /// `after` and `result` are a possible outcome of connection `id` drawing a card: as for
    /// `play_outcome`, with the game moving on as `GameView::draw_outcome` allows.
    pub open spec fn draw_outcome(self, after: ServerView, id: usize, result: Result<(), ErrorResponse>) -> bool {
        &&& after.connections == self.connections
        &&& after.usernames == self.usernames
        &&& !self.connections.contains_value(id) ==> result == Err::<(), ErrorResponse>(ErrorResponse::NotInGame)
            && after == self
        &&& self.connections.contains_value(id) && self.game is None ==> result == Err::<(), ErrorResponse>(
            ErrorResponse::GameNotStarted,
        ) && after == self
        &&& self.game matches Some(g) ==> (self.connections.contains_value(id) ==> {
            let name = user_of(self.connections, id);
            &&& g.draw_check(name) is Err ==> result == Err::<(), ErrorResponse>(ErrorResponse::InvalidAction)
                && after == self
            &&& g.draw_check(name) is Ok ==> result is Ok && after.game is Some && g.draw_outcome(
                after.game.unwrap(),
                name,
                Ok(()),
            )
        })
    }

    /// `after` and `result` are what starting the game gives: `GameAlreadyStarted` (changing
    /// nothing) when one runs, otherwise a new game among the registered names in
    /// registration order, six cards each, the first name to play, clockwise, with no winner
    /// and no color in force.
    pub open spec fn start_outcome(self, after: ServerView, result: Result<(), ErrorResponse>) -> bool {
        &&& after.connections == self.connections
        &&& after.usernames == self.usernames
        &&& self.game is Some ==> result == Err::<(), ErrorResponse>(ErrorResponse::GameAlreadyStarted)
            && after == self
        &&& self.game is None ==> result is Ok
        &&& self.game is None ==> (after.game matches Some(g) && {
            &&& g.players.len() == self.usernames.len()
            &&& forall|i: int|
                0 <= i < g.players.len() ==> {
                    &&& #[trigger] g.players[i].username == self.usernames[i]
                    &&& g.players[i].active
                    &&& g.players[i].hand.len() == 6
                }
            &&& g.current_player == self.usernames[0]
            &&& g.is_clockwise
            &&& g.winner is None
            &&& g.active_color is None
        })
    }

    /// `message` goes to the connection of some connected user and tells them the server
    /// state as they see it.
    pub open spec fn is_update_message(self, message: (usize, ServerToClient)) -> bool {
        exists|name: Seq<char>|
            {
                &&& #[trigger] self.connections.dom().contains(name)
                &&& self.connections[name] == message.0
                &&& message.1 matches ServerToClient::StateUpdate(state)
                &&& self.shown_to(name, state)
            }
    }

    /// `state` is what the connected user `name` is told: the registered names, their own
    /// name, and the game as they see it, if a game runs and they are in it.
    pub open spec fn shown_to(self, name: Seq<char>, state: protocol::ServerState) -> bool {
        &&& state.client_username@ == name
        &&& state.usernames@.map_values(|s: String| s@) == self.usernames
        &&& match self.game {
            None => state.game_state is None,
            Some(g) => {
                &&& state.game_state is None <==> !has_player(g.players, name)
                &&& state.game_state matches Some(gs) ==> g.shown_as(name, gs)
            },
        }
    }
}

/// Given a name is registered once, it sits at one position.
proof fn lemma_no_dup_index(s: Seq<Seq<char>>, i: int, j: int)
    requires
        s.no_duplicates(),
        0 <= i < s.len(),
        0 <= j < s.len(),
        s[i] == s[j],
    ensures
        i == j,
{
}

impl Default for ServerState {
    /// A server with no connection, no username and no game.
    fn default() -> (state: Self)
        ensures
            state@.connections == Map::<Seq<char>, usize>::empty(),
            state@.usernames == Seq::<Seq<char>>::empty(),
            state@.game is None,
            state@.wf(),
    {
        let state = ServerState { current_connections: connections_new(), usernames: Vec::new(), game: None };
        proof {
            assert(state@.usernames =~= Seq::<Seq<char>>::empty());
            assert(state@.connections =~= Map::<Seq<char>, usize>::empty());
        }
        state
    }
}

impl ServerState {
    /// A server whose host is connected under `host_id` with the name `host_username`.
    pub fn new(host_username: String, host_id: usize) -> (state: Self)
        ensures
            state@.connections == Map::<Seq<char>, usize>::empty().insert(host_username@, host_id),
            state@.usernames == seq![host_username@],
            state@.game is None,
            state@.wf(),
    {
        let mut current_connections = connections_new();
        let mut usernames: Vec<String> = Vec::new();
        usernames.push(host_username.clone());
        connections_insert(&mut current_connections, host_username, host_id);
        let state = ServerState { current_connections, usernames, game: None };
        proof {
            let m = Map::<Seq<char>, usize>::empty();
            assert(without_id(m.remove(host_username@), host_id) =~= m);
            assert(state@.usernames =~= seq![host_username@]);
            assert(state@.usernames[0] == host_username@);
        }
        state
    }

    fn username_position(&self, name: &String) -> (position: Option<usize>)
        ensures
            match position {
                Some(i) => i < self@.usernames.len() && self@.usernames[i as int] == name@,
                None => !self@.usernames.contains(name@),
            },
    {
        let mut i: usize = 0;
        while i < self.usernames.len()
            invariant
                i <= self.usernames.len(),
                forall|j: int| 0 <= j < i ==> #[trigger] self@.usernames[j] != name@,
            decreases self.usernames.len() - i,
        {
            if self.usernames[i] == *name {
                proof {
                    assert(self@.usernames[i as int] == name@);
                }
                return Some(i);
            }
            i = i + 1;
        }
        None
    }

    fn has_username(&self, name: &String) -> (found: bool)
        ensures
            found == self@.usernames.contains(name@),
    {
        match self.username_position(name) {
            Some(_) => true,
            None => false,
        }
    }

    /// Attempts to register the username for a connection.
    /// If the username has an existing connection, returns an error.
    /// If the connection already has a username, returns an error.
    /// If the game has already begun, returns an error.
    /// Otherwise, adds the user to the usernames and the connections.
    pub fn register_username(&mut self, sender: usize, username: &String) -> (result: Result<(), ErrorResponse>)
        requires
            old(self)@.wf(),
        ensures
            old(self)@.register_outcome(final(self)@, sender, username@, result),
            final(self)@.wf(),
    {
        let in_usernames = self.has_username(username);
        // Check if username is already in use
        if in_usernames && connections_contains_left(&self.current_connections, username) {
            return Err(ErrorResponse::UsernameInUse);
        }
        // Check if sender already has a username
        if connections_contains_right(&self.current_connections, sender) {
            return Err(ErrorResponse::InvalidAction);
        }
        // Check if game has already begun
        if self.game.is_some() {
            return Err(ErrorResponse::GameHasBegun);
        }
        let ghost start = self@;
        // Add user to usernames and current_connections
        if !in_usernames {
            self.usernames.push(username.clone());
        }
        connections_insert(&mut self.current_connections, username.clone(), sender);
        proof {
            assert(!start.connections.dom().contains(username@));
            assert(without_id(start.connections.remove(username@), sender) =~= start.connections);
            assert(self@.usernames =~= start.with_username(username@));
            assert forall|k: Seq<char>| #[trigger] self@.connections.dom().contains(k) implies self@.usernames.contains(k) by {
                if k != username@ {
                    assert(start.usernames.contains(k));
                    let i = choose|i: int| 0 <= i < start.usernames.len() && start.usernames[i] == k;
                    assert(self@.usernames[i] == k);
                } else if !start.usernames.contains(username@) {
                    assert(self@.usernames[start.usernames.len() as int] == k);
                }
            }
            assert forall|i: int, j: int|
                0 <= i < self@.usernames.len() && 0 <= j < self@.usernames.len() && i != j
                implies self@.usernames[i] != self@.usernames[j] by {
                if !start.usernames.contains(username@) {
                    if i == start.usernames.len() {
                        assert(start.usernames[j] == self@.usernames[j]);
                    } else if j == start.usernames.len() {
                        assert(start.usernames[i] == self@.usernames[i]);
                    }
                }
            }
        }
        Ok(())
    }

    /// The username connected under `sender`, if any.
    fn username_of(&self, sender: usize) -> (name: Option<String>)
        requires
            self@.wf(),
        ensures
            match name {
                Some(n) => self@.connections.contains_value(sender) && n@ == user_of(self@.connections, sender),
                None => !self@.connections.contains_value(sender),
            },
    {
        let name = connections_get_by_right(&self.current_connections, sender);
        proof {
            if let Some(n) = &name {
                let k = user_of(self@.connections, sender);
                assert(self@.connections.dom().contains(n@));
                assert(self@.connections.dom().contains(k) && self@.connections[k] == sender);
            }
        }
        name
    }

    /// Attempts to play a card for a connection.
    /// If the connection has no username, returns `NotInGame`; if no game runs,
    /// `GameNotStarted`; if the game refuses the play, `InvalidAction`.
    /// Otherwise, plays the card (a wild color and penalty cards are chosen at random).
    pub fn play_card(&mut self, sender: usize, card: &Card) -> (result: Result<(), ErrorResponse>)
        requires
            old(self)@.wf(),
        ensures
            old(self)@.play_outcome(final(self)@, sender, *card, result),
            final(self)@.wf(),
    {
        let username = match self.username_of(sender) {
            Some(name) => name,
            None => {
                return Err(ErrorResponse::NotInGame);
            },
        };
        match self.game.as_mut() {
            None => Err(ErrorResponse::GameNotStarted),
            Some(game) => match game.play_card(&username, card) {
                Ok(()) => Ok(()),
                Err(_) => Err(ErrorResponse::InvalidAction),
            },
        }
    }

    /// Attempts to draw a card for a connection.
    /// If the connection has no username, returns `NotInGame`; if no game runs,
    /// `GameNotStarted`; if the game refuses the draw, `InvalidAction`.
    /// Otherwise, draws a random card.
    pub fn draw_card(&mut self, sender: usize) -> (result: Result<(), ErrorResponse>)
        requires
            old(self)@.wf(),
        ensures
            old(self)@.draw_outcome(final(self)@, sender, result),
            final(self)@.wf(),
    {
        let username = match self.username_of(sender) {
            Some(name) => name,
            None => {
                return Err(ErrorResponse::NotInGame);
            },
        };
        match self.game.as_mut() {
            None => Err(ErrorResponse::GameNotStarted),
            Some(game) => match game.draw_card(&username) {
                Ok(()) => Ok(()),
                Err(_) => Err(ErrorResponse::InvalidAction),
            },
        }
    }

    /// Attempts to remove a connection from the server.
    /// If the connection has no username, returns `NotInGame`.
    /// Otherwise, removes the connection; if the game has not begun, also removes its
    /// username.
    pub fn remove_sender(&mut self, sender: usize) -> (result: Result<(), ErrorResponse>)
        requires
            old(self)@.wf(),
        ensures
            final(self)@.wf(),
            final(self)@.game == old(self)@.game,
            !old(self)@.connections.contains_value(sender) ==> result == Err::<(), ErrorResponse>(
                ErrorResponse::NotInGame,
            ) && final(self)@ == old(self)@,
            old(self)@.connections.contains_value(sender) ==> {
                let name = user_of(old(self)@.connections, sender);
                &&& result is Ok
                &&& final(self)@.connections == old(self)@.connections.remove(name)
                &&& old(self)@.game is None ==> final(self)@.usernames == old(self)@.usernames.remove(
                    old(self)@.usernames.index_of(name),
                )
                &&& old(self)@.game is Some ==> final(self)@.usernames == old(self)@.usernames
            },
    {
        let ghost start = self@;
        // Get and copy username before any mutable operations
        let username = match self.username_of(sender) {
            Some(name) => name,
            None => {
                return Err(ErrorResponse::NotInGame);
            },
        };
        // Remove from current_connections
        connections_remove_by_right(&mut self.current_connections, sender);
        proof {
            assert forall|k: Seq<char>| #[trigger] start.connections.dom().contains(k) && start.connections[k] == sender implies k == username@ by {
                assert(start.connections[username@] == sender);
            }
            assert(without_id(start.connections, sender) =~= start.connections.remove(username@));
        }
        // If game hasn't started, also remove from usernames set
        if self.game.is_none() {
            proof {
                assert(start.usernames.contains(username@));
            }
            if let Some(i) = self.username_position(&username) {
                self.usernames.remove(i);
                proof {
                    let k = start.usernames.index_of(username@);
                    assert(start.usernames[k] == username@);
                    lemma_no_dup_index(start.usernames, k, i as int);
                    assert(self@.usernames =~= start.usernames.remove(i as int));
                    assert forall|n: Seq<char>| #[trigger] self@.connections.dom().contains(n) implies self@.usernames.contains(n) by {
                        let j = choose|j: int| 0 <= j < start.usernames.len() && start.usernames[j] == n;
                        if j < i {
                            assert(self@.usernames[j] == n);
                        } else {
                            assert(j != i);
                            assert(self@.usernames[j - 1] == n);
                        }
                    }
                }
            }
        }
        Ok(())
    }

    /// Returns the server state for this username.
    /// Returns None if the username is not connected.
    pub fn get_user_server_state(&self, username: &String) -> (state: Option<protocol::ServerState>)
        requires
            self@.wf(),
            self@.counts_fit(),
        ensures
            state is None <==> !self@.connections.dom().contains(username@),
            state matches Some(s) ==> self@.shown_to(username@, s),
    {
        // If the username isn't connected, return None
        if !connections_contains_left(&self.current_connections, username) {
            return None;
        }
        // Get game state if game exists
        let game_state = match &self.game {
            Some(game) => game.get_player_game_state(username),
            None => None,
        };
        let mut usernames: Vec<String> = Vec::new();
        let mut i: usize = 0;
        while i < self.usernames.len()
            invariant
                i <= self.usernames.len(),
                usernames.len() == i,
                forall|k: int| 0 <= k < i ==> (#[trigger] usernames@[k])@ == self@.usernames[k],
            decreases self.usernames.len() - i,
        {
            usernames.push(self.usernames[i].clone());
            i = i + 1;
        }
        proof {
            assert(usernames@.map_values(|s: String| s@) =~= self@.usernames);
        }
        Some(protocol::ServerState { game_state, usernames, client_username: username.clone() })
    }

    /// Starts the game among the registered usernames, in registration order, with six
    /// cards each. If a game has already started, returns `GameAlreadyStarted`.
    pub fn start_game(&mut self) -> (result: Result<(), ErrorResponse>)
        requires
            old(self)@.wf(),
            old(self)@.game is None ==> old(self)@.usernames.len() > 0,
        ensures
            old(self)@.start_outcome(final(self)@, result),
            final(self)@.wf(),
    {
        if self.game.is_some() {
            return Err(ErrorResponse::GameAlreadyStarted);
        }
        match Game::new(&self.usernames, 6) {
            Some(game) => {
                self.game = Some(game);
                Ok(())
            },
            None => Err(ErrorResponse::FailedToStartGame),
        }
    }

    /// The messages that report the outcome of a request: when it succeeded, every connected
    /// user gets the server state as they see it; when it failed, the connection that sent
    /// it (if any) gets the error.
    pub fn update_messages(&self, source: Option<usize>, result: &Result<(), ErrorResponse>) -> (messages: Vec<(usize, ServerToClient)>)
        requires
            self@.wf(),
            self@.counts_fit(),
        ensures
            match result {
                Ok(_) => {
                    &&& forall|i: int|
                        0 <= i < messages.len() ==> self@.is_update_message(#[trigger] messages@[i])
                    &&& forall|name: Seq<char>|
                        #[trigger] self@.connections.dom().contains(name) ==> exists|i: int|
                            0 <= i < messages.len() && messages@[i].0 == self@.connections[name]
                    &&& forall|i: int, j: int|
                        0 <= i < j < messages.len() ==> messages@[i].0 != messages@[j].0
                },
                Err(e) => match source {
                    Some(id) => messages@ == seq![(id, ServerToClient::Error(*e))],
                    None => messages@.len() == 0,
                },
            },
    {
        let mut messages: Vec<(usize, ServerToClient)> = Vec::new();
        match result {
            Ok(()) => {
                // On success, send updated state to all connected users
                let entries = connections_entries(&self.current_connections);
                let mut i: usize = 0;
                while i < entries.len()
                    invariant
                        i <= entries.len(),
                        self@.wf(),
                        self@.counts_fit(),
                        messages.len() == i,
                        forall|k: int|
                            0 <= k < entries.len() ==> {
                                &&& self@.connections.dom().contains((#[trigger] entries@[k]).0@)
                                &&& self@.connections[entries@[k].0@] == entries@[k].1
                            },
                        forall|k: int|
                            0 <= k < i ==> {
                                &&& (#[trigger] messages@[k]).0 == entries@[k].1
                                &&& messages@[k].1 matches ServerToClient::StateUpdate(state)
                                &&& self@.shown_to(entries@[k].0@, state)
                            },
                    decreases entries.len() - i,
                {
                    let (username, id) = (&entries[i].0, entries[i].1);
                    match self.get_user_server_state(username) {
                        Some(state) => {
                            messages.push((id, ServerToClient::StateUpdate(state)));
                        },
                        None => {
                            proof {
                                assert(false);
                            }
                        },
                    }
                    i = i + 1;
                }
                proof {
                    assert forall|k: int| 0 <= k < messages.len() implies self@.is_update_message(#[trigger] messages@[k]) by {
                        let name = entries@[k].0@;
                        assert(self@.connections.dom().contains(name));
                        assert(self@.connections[name] == messages@[k].0);
                    }
                    assert forall|name: Seq<char>| #[trigger] self@.connections.dom().contains(name) implies exists|k: int|
                        0 <= k < messages.len() && messages@[k].0 == self@.connections[name] by {
                        let k = choose|k: int| 0 <= k < entries.len() && (#[trigger] entries@[k]).0@ == name;
                        assert(messages@[k].0 == entries@[k].1);
                    }
                    assert forall|a: int, b: int| 0 <= a < b < messages.len() implies messages@[a].0 != messages@[b].0 by {
                        assert(entries@[a].0@ != entries@[b].0@);
                        assert(self@.connections.dom().contains(entries@[a].0@));
                        assert(self@.connections.dom().contains(entries@[b].0@));
                    }
                }
            },
            Err(error) => {
                if let Some(sender) = source {
                    // On error, send error only to source
                    messages.push((sender, ServerToClient::Error(*error)));
                    proof {
                        assert(messages@ =~= seq![(sender, ServerToClient::Error(*error))]);
                    }
                }
            },
        }
        messages
    }

    /// The registered usernames, in order of registration.
    pub fn usernames(&self) -> (names: &Vec<String>)
        ensures
            names@.map_values(|s: String| s@) == self@.usernames,
    {
        &self.usernames
    }

    /// Whether a game runs.
    pub fn has_game(&self) -> (running: bool)
        ensures
            running == self@.game is Some,
    {
        self.game.is_some()
    }

    /// Whether every hand in the running game has a size that fits in an `i64`, as the
    /// counts shown to players must.
    pub fn counts_fit(&self) -> (fit: bool)
        ensures
            fit == self@.counts_fit(),
    {
        match &self.game {
            Some(game) => game.counts_fit(),
            None => true,
        }
    }

    /// Carries out a client's request from connection `sender`.
    pub fn handle_request(&mut self, sender: usize, message: ClientToServer) -> (result: Result<(), ErrorResponse>)
        requires
            old(self)@.wf(),
        ensures
            final(self)@.wf(),
            match message {
                ClientToServer::RegisterUsername(name) => old(self)@.register_outcome(final(self)@, sender, name@, result),
                ClientToServer::PlayCard(card) => old(self)@.play_outcome(final(self)@, sender, card, result),
                ClientToServer::DrawCard => old(self)@.draw_outcome(final(self)@, sender, result),
            },
    {
        match message {
            ClientToServer::RegisterUsername(username) => self.register_username(sender, &username),
            ClientToServer::PlayCard(card) => self.play_card(sender, &card),
            ClientToServer::DrawCard => self.draw_card(sender),
        }
    }

    /// Carries out a request of the hosting client to manage the server.
    pub fn handle_management(&mut self, message: ManageServer) -> (result: Result<(), ErrorResponse>)
        requires
            old(self)@.wf(),
            old(self)@.game is None ==> old(self)@.usernames.len() > 0,
        ensures
            final(self)@.wf(),
            match message {
                ManageServer::StartGame => old(self)@.start_outcome(final(self)@, result),
            },
    {
        match message {
            ManageServer::StartGame => self.start_game(),
        }
    }
}

} // verus!
