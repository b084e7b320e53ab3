# budget_rs

A personal finance tracker: income and expense transactions, filtered by
month and category, summarised, added and deleted, from the command line or
a small local web interface.

- `src/` is the library, verified with Verus:
  - `text.rs`: ASCII case folding and Unicode whitespace trimming;
  - `dates.rs`: calendar dates and their `YYYY-MM` / `YYYY-MM-DD` text, by way of `chrono`;
  - `models.rs`: transaction types, categories, transactions, and reading names;
  - `reports.rs`: filtering by month and category, display names;
  - `ledger.rs`: numbering, adding and deleting transactions;
  - `requests.rs`: checking what a user asks to record, the JSON form of a transaction;
  - `sequences.rs`: facts about filtered sequences used by the proofs.
- `app/` is the program around it: command line (`clap`), the JSON data file
  (`serde_json`), the web server (`axum`, `tokio`), and the floating-point
  summary of amounts.
- `tests/` runs the library on concrete values.
