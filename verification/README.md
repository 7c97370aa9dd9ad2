# safai

Safai finds the caches, build artifacts and other junk that developer tools
pile up, says how safe each finding is to remove, deletes what the user
approves (to the Recycle Bin by default, never outside the user's own
folders), and can run that maintenance unattended on a schedule.

This crate is the verified core, written in Verus. Its own logic is proved
against its contracts. A few small functions marked
`#[verifier::external_body]` call `std`, `chrono`, `sha2` and `hex` (the
clock, the local time zone, hashing, hex, case mapping, path joining);
their contracts are believed, not proved, and each says in its doc comment
what it claims. The file system and the rest of the operating system are
read outside and handed in as plain values.

- `src/model.rs`, `src/rules.rs`: findings, categories, safety tiers, the
  rule table.
- `src/detect.rs`, `src/scan.rs`, `src/walk.rs`, `src/assembly.rs`: path
  expansion, tool detection, stable ids, the pruned project walk, the
  large-folder filter, and how findings become a grouped report.
- `src/session.rs`, `src/cli.rs`, `src/guard.rs`: the scan session, the
  one-shot confirm token, the command line's preconditions, and the
  deletion guardrail.
- `src/delete_engine.rs`: retry decisions, pre-checks and messages of robust
  deletion, and the tally of a deletion pass.
- `src/schedule/`: the automation settings, the tick decision, the
  auto-clean whitelist, and a run's bookkeeping.
- `src/state.rs`, `src/commands.rs`, `src/tray.rs`, `src/winsys.rs`: the
  desktop app's activity gate, command decisions, tray text and menu, and
  the meaning of system readings.

`app/` is the command-line program around the library: argument parsing,
JSON output, the session file, and the file-system work (listing, sizing,
deleting).
