# myconnect4

A connect-four server whose game logic and actor decisions are verified with Verus.

- `src/game`: the board, moves and their undoing, four in a row, the board as text.
- `src/minimax.rs`: the computer opponent's search (scores computed in parallel with rayon).
- `src/repo.rs`, `src/user_games.rs`: the games in progress and the finished ones.
- `src/actor`: what each actor (matchmaking, game, bots, bot manager, service,
  controller) does with a message, as a function from state and message to new
  state and the messages to send.
- `src/client.rs`: the client's commands, read with regular expressions.
- `app/`: the tokio runtime that runs the actors, and the command-line session.

What `app/` does not do:

- There is no gRPC transport: the protocol's `.proto` definition is not part of
  this crate, so the service does not listen on a network address. A client
  session runs inside the server process (start the server with a user name and
  an address); the address is only printed, and no `user` header is read.
- No task calls the minimax search: bots play random legal moves. The search
  (`minimax::best_move`) is part of the library.
