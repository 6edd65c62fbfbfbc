# edr

Endpoint detection and response for Linux. The library (`src/`) is written in Verus: its functions
state what they do, and the statements are proved. What is believed without proof is listed below.

| Where | What |
|---|---|
| `common`, `config` | events, alerts, severities, settings |
| `analyzer` | rules and the built-in rules, scores, sequences in time, and what holds of a whole series of events |
| `collector` | readers of kernel reports, file notifications, `/proc`, hashes of files |
| `response` | what is done about an alert |
| `storage`, `tables` | what is stored, how it is asked for, and which rows the statements find or delete |
| `interface` | texts of the commands and of the dashboard |
| `monitor` | the small monitor: its events, rules, sources and dashboard |
| `tasks` | the build tasks |
| `text`, `number`, `split`, `path`, `address`, `record`, `encoding`, `time`, `json`, `pattern` | what the others are built from |

`app/` is the program around the library: command line, kernel probes, files, sockets, the
database and the terminal. `tests/` runs the library with the crates that it uses.

## What is not proved

The library calls other crates and a few parts of the standard library through small functions
marked `external_body`, or under an `assume_specification`. Verus believes these contracts; the
comment above each says what it claims of the call.

| Where | Calls |
|---|---|
| `pattern` | `Regex::new`, `Regex::is_match` |
| `collector::hasher` | `Sha256::digest`, `hex::encode` |
| `encoding` | `std::str::from_utf8`, `String::from_utf8_lossy` |
| `text` | `str::to_lowercase`, `String::push`, `String::push_str` |
| `json` | making, reading, parsing and writing a `serde_json::Value` |
| `time` | `Utc::now`, RFC 3339 and pattern texts of `chrono::DateTime`, `Instant::now`, `Instant::saturating_duration_since` |

The types `regex::Regex`, `serde_json::Value` and `std::time::Instant` are opaque to the proofs.
Verus does not read `app/`. There SQLite runs the statements of `storage`, and numbers that are not
whole are compared in floating point. What the statements ask for is said in `tables`; that SQLite
does so is not proved, but `tests/storage.rs` runs them.

## Built-in rules

| Rule | Reported for |
|---|---|
| R-001 | a program below `/tmp` or `/dev/shm` |
| R-002 | a shell of another user than root |
| R-003 | a write to `/etc/passwd` or `/etc/shadow` |
| R-004 | a write to a crontab or a systemd timer |
| R-005 | `LD_PRELOAD` in the arguments or in the environment of a program |
| R-006 | more than 50 connections of a process within 10 seconds |
| R-007 | a connection less than 2 seconds after the process executed a program |
| R-008 | a program executed less than 5 seconds after the process changed the mode of its file |
| R-009 | an opening or reading of `/etc/shadow` |
| R-010 | a new library below `/tmp`, `/dev/shm` or `/var/tmp` |

An alert adds the score of its rule to that of its process. A score of more than 100 within five
minutes raises an alert of its own, and starts over.
