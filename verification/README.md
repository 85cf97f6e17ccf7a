# poker_arena

The rules of a poker training server, written and verified in Verus.

| Module | Contents |
| --- | --- |
| `single` | binary32 arithmetic on integers, with its rounding |
| `cards`, `strength` | reading hands and boards, and how strong a hand is |
| `strategy`, `ranges` | how to play a spot, and opening ranges |
| `bot` | simulated opponents, and the table of seven |
| `duel`, `lobby` | live duels: rooms, rounds, and what every event does |
| `wire` | messages and the JSON objects that carry them |
| `accounts`, `friends`, `text` | answers, ratings, rankings, friendships |
| `store` | what is handed to the database |
| `database` | a model of the tables and of what the statements mean |

`src/` holds the library, `tests/` its tests, and `app/` the server around it:
routes, sockets and the database.

Strengths, error chances and damage are binary32 numbers, counted in units of
2^-40. The server turns them into floats without loss.

The meaning of the SQL texts is modelled in `database` and `friends`, not proved:
`tests/database.rs` and `tests/tables.rs` try the texts on SQLite.
