# notifwire

The OS-independent core of notifwire, a self-hosted, peer-to-peer
notification mesh: producers capture notifications and serve them over
Server-Sent Events with a bounded catch-up outbox; consumers subscribe,
filter, dedup and display them.

The library in `src/` is written in Verus: every operation carries a
contract, and the properties the mesh relies on are stated and proved in
`src/laws.rs`.

- `notification`, `rules`, `dedup`, `icon`, `toast` — the data model, the
  consumer's rules engine and duplicate suppression, icon resolution order,
  toast XML.
- `outbox`, `transport` — monotonic cursors, bounded catch-up, replay-then-live
  planning, SSE frame decoding.
- `consumer`, `health` — rendering, the show-or-suppress step, the reconnect
  state machine and a shared, lock-protected connection status.
- `config`, `settings`, `appconfig` — versioned config with apply-if-newer,
  the desktop app's settings document and every edit to it.
- `calendar`, `text`, `names` — timestamps, exact string helpers, a small
  name-keyed map.

`app/` is the ordinary Rust around it: the HTTP server and client, SQLite
history, outbox persistence, logging and the command line.
