# privacykit

A privacy toolkit in three parts, with its rules verified by Verus:

- **track** — a database of tracker domains, the lookup of a domain and its
  parent domains, the extraction of the third-party domains a web page loads
  resources from, and the tallies of a scan by company and category.
- **phantom** — a table of major data breaches, the search for the breaches
  that concern an email address, the severity rating and advised actions for
  breached data, and the k-anonymity check of a password against the Pwned
  Passwords range API (only five hex digits of the SHA-1 leave the machine).
- **leak** — a watchlist of identifiers, the breaches already reported for
  each, scans that report only new breaches, and an action log whose actions
  are stored once, listed most urgent first, and settled once.

## Layout

- `src/` — the verified library. `text` holds the character-level helpers,
  `common` the severity rules, `action_log` the action table shared by phantom
  and leak, and `track`, `phantom`, `leak` the three tools. Calls into `sha1`,
  `colored`, `scraper`, `reqwest::Url` and `str` case mapping go through small
  trusted wrappers whose contracts are documented where they stand.
- `tests/` — tests of the library on concrete values.
- `app/` — the command-line program: argument parsing, the SQLite files under
  `~/.privacykit/`, HTTP fetches, and terminal output.
