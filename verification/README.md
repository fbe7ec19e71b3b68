# mcp_monitor

The interface state of a terminal monitor for MCP proxies, written in Verus.

- `model` — proxy identifiers, log entries, proxy statistics.
- `filter` — the log tabs and which entries each lists (`shown_positions`).
- `text` — the lexicographic order of names and its lemmas.
- `proxies` — the proxy table (a vector with distinct identifiers), lookup,
  connection, disconnection, statistics, listing by name, traffic totals.
- `json` — the detail text of a log entry (`log_text`): metadata as pretty
  JSON, else the message as pretty JSON, else the raw message; `serde_json`
  is reached through the only trusted items of the crate.
- `app` — `App`, its mathematical view `AppView`, and one spec function per
  operation (`after_event`, `after_scroll_up`, ...); every method of `App`
  that changes the state is proved to move its view exactly as that spec
  function says, and every query returns exactly what its contract names.
- `laws` — properties across operations: the tabs partition the log, switching
  tabs and back restores the selection, a fitted viewport shows the selection,
  the log keeps the newest `MAX_LOGS` entries and saved selections follow
  their entries when old ones are dropped, the proxy table behaves as a map
  keyed by identifier, and more.
