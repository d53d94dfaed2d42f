# dissimkl

Discord Rich Presence for [Simkl](https://simkl.com): shows on Discord what you are
watching, from Simkl's playback history and from the "NOW WATCHING" bar of your dashboard.

The decisions are a library, verified with [Verus](https://github.com/verus-lang/verus):
what is asked of Simkl and what the answers come to, which session is shown, when Discord
has to be told, how the configuration file is written and read. Everything that touches the
world — requests, the Discord socket, files, the terminal, the tray — is the application
around it.

## Layout

| Place | What it holds |
|-------|---------------|
| `src/state.rs`, `src/playback.rs` | Sessions, their labels and links, and what Simkl's entries come to |
| `src/dashboard.rs`, `src/page.rs` | Reading the live session off the dashboard page |
| `src/simkl.rs`, `src/cache.rs`, `src/json.rs` | The Simkl client: requests, retries, kept posters, the user's number |
| `src/retry.rs`, `src/clock.rs` | Retries with growing delays; moments in UTC |
| `src/poll.rs` | The poll cycle: when to fetch, which session to show |
| `src/discord.rs` | What Discord shows and when it is sent |
| `src/config.rs`, `src/pin.rs` | The configuration file, first-run setup, PIN authorization |
| `src/icon.rs`, `src/tray.rs`, `src/version.rs` | The tray icon and menu; the reported version |
| `src/text.rs`, `src/number.rs` | Texts and numbers |
| `app/` | The program |
| `tests/` | Tests of the library |

## Configuration

`credentials.ini`, in the `dissimkl` directory of the system's configuration directory:

```ini
[simkl]
client_id = YOUR_SIMKL_CLIENT_ID
access_token = YOUR_SIMKL_ACCESS_TOKEN

[discord]
app_id_shows  = 123456789012345678
app_id_movies = 123456789012345679
app_id_anime  = 123456789012345680

[settings]
; How often (in seconds) to check Simkl for activity changes
poll_interval_secs = 15
; Sessions older than this many hours are ignored
session_window_hours = 4
```

Changes take effect on the next poll cycle. A media type whose `app_id_*` is blank is not
shown on Discord.
