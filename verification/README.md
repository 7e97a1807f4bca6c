# void

Ephemeral chat rooms for live sessions: a presenter opens a room, shares a short
link, and everything is gone when the session ends. Chat with reactions, a
question board with votes, polls, moderation, timed write locks, a read-only
display window. No accounts.

The library under `src/` holds what the server decides, as plain data with
contracts that Verus proves. The server under `app/` holds what it does: HTTP,
WebSockets, channels, timers, Postgres.

## The library

| Module | What it holds |
|---|---|
| `state` | rooms and what they hold, snapshots, the state of the server |
| `ws` | the client protocol: frames, actions, and their effects |
| `socket` | connections: admission, entering and leaving, frames as text, the send pump |
| `event` | the event log of a room, and how a room is rebuilt from it |
| `db` | rows of rooms and events, replay at startup |
| `handlers` | opening and joining rooms, their state for admins, the sweep |
| `auth` | room ids, secrets, tokens, passwords |
| `config` | configuration from environment variables |
| `assets` | the embedded frontend |
| `wire`, `json` | the JSON on the wire |
| `list`, `table`, `text` | lists with ids, a small map, text routines |
| `consistency` | what holds of every room at every time |
| `recovery` | a room rebuilt from its log is the room that was lost, but for what is not stored |
| `laws` | what clients and presenters can rely on |
| `outside` | the calls into `std` and other crates, with the contracts taken on trust |

Random numbers, the clock, hashing and JSON parsing come from other crates.
Functions that use them have a companion that takes the outcome as an argument
(`join_room_at`, `open_room`, `handle_frame`, `replay_all_at` and so on), whose
contract says exactly what comes of it.

## Running

The server reads its configuration from the environment (`HOST`, `PORT`,
`BASE_URL`, `DATABASE_URL` and the limits in `config`). Without `DATABASE_URL`
rooms live in memory only. A test room is always there: `/r/test/test`.
