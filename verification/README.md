# tm_core

The core rules of TM, a local assistant for tasks, notes, memories, mail triage,
personal expenses and a stock screen, written in Verus and proved against their
contracts.

## Layout

- `src/` is the verified library. Each module states its rules as `requires` /
  `ensures` over spec functions and proves them; public `proof fn`s state the laws
  that relate several calls (a re-import adds nothing, a triage batch completes once,
  a stored key probe is never replaced, report facts are ordered by distinct IDs, and
  so on).
  - Expenses: `import`, `import_digest`, `preview_json`, `ledger_rules`,
    `allocation`, `month_summary`, `tally`, `expense_aggregate`, `month_reports`,
    `recurring`, `occurrences`, `expense_commands`, `expense_attempts`,
    `expense_refresh`, `expense_types`, `expense`.
  - Memories and tasks: `memory`, `model`, `mutation`, `task_report`, `export`.
  - Mail: `mail`, `mail_states`.
  - Stocks: `stock_screen`, `stock_results`, `stock_watchlist`, `watchlist_order`,
    `universe_listing`, `nyse`.
  - Shared: `calendar`, `scheduler`, `normalize`, `text`, `hashing`, `home`,
    `migration`, `error`.
- Calls into chrono, chrono-tz, serde_json, sha2, url and uuid stand behind small
  trusted wrappers (`#[verifier::external_body]`) whose contracts say what those
  crates do; everything around them is verified.
- `tests/` runs the library on concrete values.
- `app/` is ordinary Rust around the library: SQLite reads and writes, the clock,
  and the JSON that serde writes for the library's types. It decides nothing itself.

## Checking

Verus verifies `src/`; the tests build the library with the real outside crates.
