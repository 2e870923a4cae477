# car_logger

Verified core of a vehicle data logger for CAN and OBD-II adapters.

`src/` is a Verus library.  Its functions carry contracts that Verus
proves, with one exception: a few small functions marked
`#[verifier::external_body]` make a single call into `std` or an outside
crate, and their contracts are believed, not proved.  They are
`date_of_day_number` (chrono's calendar), `semver_parse`, `semver_gt`,
`semver_text` and `semver_error_text` (semver), `sha256` (sha2) and
`string_from_chars` (`String::from_iter`, which vstd gives no
specification); the outside types `semver::Version`,
`semver::Error` and `anyhow::Error` are declared to Verus as opaque.
Everything else is verified.  The library holds the parts of the logger
that decide things:

| module | contents |
|---|---|
| `pid_formula` | grammar of signal formulas, compiled to a postfix program |
| `pid_scan` | scanning which PIDs an ECU answers |
| `connection` | reconnect pacing, VIN normalisation, vehicle identification |
| `health` | health vocabulary and the inference of driving sessions |
| `training` | which sessions may train the AI model and their chronological split |
| `retention` | the compaction cutoff, and the aggregation of one batch of raw frames into one-second buckets (reading frames, merging into stored buckets and deleting belong to the SQL storage, which this crate does not hold) |
| `ai_condition` | inference timing and condition notifications |
| `localization` | interface language and translation table |
| `updater` | update progress, platform assets, digest checks |
| `log_store` | write permission and vehicle scopes of the log store |
| `logging_buffer` | the capture loop: flushing, overflow, receive errors, vehicle re-checks |
| `realtime` | the latest state per CAN id, one entry per id in order of id, and the choice of dashboard metrics (`app/` shares the store behind a lock) |
| `diagnostics` | trouble-code events: continuation, recurrence, clearing |
| `release` | release channels and the choice of an update and its assets |
| `calendar`, `score_periods` | calendar dates, dashboard periods, scoring periods |
| `feature_windows` | gap filling and window offsets of AI features |
| `builtin_signals` | the builtin PID definitions and seeding them |
| `vehicle_lifecycle` | deleting, restoring and purging vehicles |
| `labels` | on-screen spellings of ids, payloads and headers |
| `application`, `domain`, `vehicle_data`, `worker_protocol` | stored codes and records |
| `text`, `time` | character and time helpers |

Laws that relate several functions are stated as public proof functions
named `law_*` next to the functions they concern.

`app/` is ordinary Rust around the library: floating-point evaluation of
formulas, scores and feature windows, file and process I/O, the capture
loop's I/O, and a small command-line front end.  `tests/` exercises the library through its public interface.
