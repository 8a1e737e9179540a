# decision_agent

An agent that keeps decision projects in step with a provider (an archive, a directory, an object
store or a PostgreSQL database) and answers requests for their decisions. Its rules are written in
Verus and proved against their contracts.

- `src/config.rs`: the settings and their defaults.
- `src/data.rs`: what a release holds.
- `src/provider/`: the held projects, the diff against what a provider lists, how a refresh goes, the
  schedule, bringing an agent up, and reading projects from a database. `laws.rs` holds what a
  refresh achieves as a whole.
- `src/routes/`: how a request finds its project and what it is answered.
- `src/outside.rs`, `src/provider/store.rs`: the items of other crates that the rules rest on.
- `app/`: configuration files, the database, the refresh task and HTTP.
- `tests/`: the library from outside.
