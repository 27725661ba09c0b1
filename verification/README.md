# hero_call

The verified core of Hero Call, a local-first research and daily-review workbench for A-share
investors. The library holds the rules: portfolio accounting (moving-average cost, T+1,
fees, realized and unrealized P&L), quote normalization and freshness labels, the dashboard and
review aggregations, news, event and intelligence handling, and the checks every AI answer must
pass before it is stored. Each public function states its behaviour in `requires` / `ensures`
and is proved by Verus.

- `src/` — the library, verified by Verus. Calls into `rust_decimal`, `chrono`, `serde_json`
  and `keyring` stand behind small trusted wrappers whose contracts are written next to them.
- `tests/` — tests of the library on concrete values.
- `app/` — the application around it: the SQLite store, HTTPS transports through `curl`, the
  JSON encodings of stored summaries and reports, and the commands the user interface calls.
