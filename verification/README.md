# eins

A networked card game in the style of "Uno", with its rules proved in Verus.

- `src/` is the verified library: cards and their encoding, players' hands,
  the game state machine (playing, drawing, turn order, special cards,
  penalties, the winner), the server's bookkeeping of connections, usernames
  and the running game, the client's view of the server state, the debug
  command line's parsing, and the small pieces of logic behind the lobby and
  the card pictures. `src/laws.rs` states properties that span several
  operations, each as a proof function.
- `app/` is the program around it: the websocket server and client, the egui
  user interface, the debug console, and the serde copies of the message
  types.
- `tests/` runs the library on concrete games.

Randomness (which card is drawn, which colour a wild card takes) comes from
`rand`, and the connection table is a `bimap::BiHashMap`; both are reached
through the trusted items in `src/random.rs` and `src/connections.rs`.
