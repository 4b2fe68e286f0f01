# monclub-bot

Books and cancels sessions on a MonClub-powered platform, from the terminal or as a Discord
slash-command bot.

`src/` is a Verus library: every rule of the program, with contracts that Verus proves. `app/` is
the ordinary Rust around it: HTTP, prompts, the Discord gateway, log files.

## The library

| Module | What it holds |
|--------|---------------|
| `config` | accounts, the users file, settings, who is the same member, renderings without secrets |
| `client` | the platform's endpoints as requests, authentication |
| `targets` | whom a terminal command is for (`--for`, or a choice) |
| `json` | JSON values in requests and answers |
| `session`, `detail`, `comparison`, `listing` | sessions and bookings: order, rendering, comparing, offering |
| `booking` | reading the answer to a booking request, and when an attempt is repeated |
| `cli` | the terminal's dialogues, step by step |
| `discord` | mentions, and whom a Discord command is for |
| `complete` | autocompletion, and the values that choices stand for |
| `message`, `replies`, `attempts`, `schedule` | Discord messages: rendering, splitting, reports, all-or-nothing groups, scheduled bookings, alerts |
| `watch` | announcing new sessions; booking a session once it can be booked |
| `when` | points in time, on top of `chrono` |
| `text`, `number`, `order` | text, decimal numbers, stable sorting |

What is taken on trust is marked `external_body`: calls into `chrono` (in `when`) and two calls
into the standard library (in `text`). The comment above each says what it claims.

## Configuration

Settings are environment variables, or lines of a `.env` file.

| Variable | Default | |
|----------|---------|---|
| `EMAIL`, `PASSWORD`, `CUSTOM_ID`, `BASE_URL` | | required |
| `LATITUDE`, `LONGITUDE` | | sent with the listing of sessions |
| `RETRY_DURATION`, `RETRY_INTERVAL` | `300`, `5` | seconds |
| `DISCORD_TOKEN` | | required by the bot |
| `DISCORD_OWNER_ID` | | when set, only this user may give commands |
| `NEW_SESSIONS_CHANNEL_ID`, `NEW_SESSIONS_POLL_INTERVAL` | , `60` | where and how often new sessions are announced |
| `BOOKING_WINDOW_HOURS` | `144` | how long before its start a session can be booked |
| `WATCH_POLL_INTERVAL` | `60` | seconds between attempts at a full session |

More accounts come from an optional `users.json` in the working directory:

```json
[
  {"discord_id": 123, "label": "tom", "email": "tom@x.com", "password": "pwd"}
]
```

`custom_id` may be added; it defaults to `CUSTOM_ID`. An entry that reuses the owner's
`discord_id`, or the label `me`, takes the place of the primary account.

## Running

`monclub-bot` shows a menu; `book`, `prebook` and `manage` go straight to an action and take
`--for <labels>`; `discord` runs the bot with the commands `/list`, `/book`, `/booking`,
`/bookings`, `/cancel`, `/compare`, `/prebook`, `/notify` and `/watchbook`.
