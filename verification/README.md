# cloudbridge

Cloud and model spending in one ledger: charges are stored per account and
billing month, read in one reporting currency, and shown as pages of totals,
rankings, charts and findings. The library is written in Verus; every function
states what it returns, and Verus proves it.

- `src/` is the library.
  - `amount`, `calendar`, `text`, `numeral`, `order`, `list`: doubles by their
    bit pattern, days and instants, texts, stable rankings.
  - `model`, `memory`, `db`, `secret_store`, `alerts`, `cloud`, `ingest`: the
    data, the store, and the sources it comes from.
  - `ledger`: writing a month, reading it back by scope, bucket and rank, and
    the laws that relate the reads.
  - `ui`: what each page knows, decides and writes; `ui::data` holds the view
    models between the ledger and the pages.
- `app/` is ordinary Rust around it: the session's store, the clock, logging,
  and everything that floating point computes.
- `tests/` runs the library.

Amounts are doubles, and the library never adds two of them. A read that totals
hands out the amounts each total adds up, in order; the caller adds them and
hands the totals back to be ranked and shown. What the library proves is
therefore exact: which charges go into a number, in what order, and what becomes
of the number.

What is taken on trust is marked where it stands: the calendar of `chrono`, the
parsing of `serde_json`, and the form of a random `uuid`.
