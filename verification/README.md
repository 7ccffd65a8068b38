# Home Cook Book

A recipe book web application's logic, written in Verus and verified:
recipes and their storage as JSON columns, the search and tag filters of the
recipe list, the editable entry lists of a recipe page, the login sessions
of the server, colour themes and the decisions of the pages.

Layout:

- `src/` — the verified library.
  - `outside.rs`: every call into std or an outside crate (regex, serde_json,
    urlencoding, rand) that Verus has no specification for, with its trusted
    contract.
  - `text.rs`, `sorting.rs`: character helpers, stable sorting by key,
    duplicate removal.
  - `recipe.rs`, `storage.rs`, `server.rs`: recipes, their JSON forms, the
    table rows and the database commands of each recipe action.
  - `search.rs`, `entries.rs`, `quantity.rs`, `theme.rs`, `pages.rs`: what the
    pages compute and decide.
  - `auth.rs`, `login_states.rs`: accounts and login sessions.
- `tests/` — tests run against the compiled library with the real outside
  crates.
- `app/` — unverified glue: serde forms of the library types, JSON backups,
  the account file, the session store with the system clock, the recipe table
  behind a trait, and the floating-point scaling of quantities.
