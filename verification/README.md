# punk_server

The logic of a small online game server, verified with Verus.

- `src/` is the library. Each actor of the server (the global chat, the game
  handler, each game, each player's connection) is a state and a set of
  functions from an event (a message, a new link, a tick) to the next state and
  what to send. Their contracts state the next state and the messages exactly.
  Beside them: the byte formats of users, messages, game and player states,
  and of the battle's units, soldiers and orders (whose `f32`s are held as bit
  patterns); a city board; and a lobby in which actors are known by name.
- `app/` runs the actors as tokio tasks over TCP and holds the battle's
  floating-point physics.
- `tests/` runs the library on concrete values.
