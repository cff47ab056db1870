# kival

The verified core of the Kival workspace server (`kivald`): the logic that decides, checked by
Verus against contracts written over mathematical models.

- `src/` is the library. Each module states its behaviour in `requires`/`ensures` clauses and
  proves it; the laws that relate several operations are public proof functions.
  - `text`, `vocab`, `strset`, `json`: string, vocabulary and JSON helpers with their models.
  - `catalog`, `actions`, `demos`, `initializers`: the workspace-initializer catalog and its
    validation.
  - `seed`, `demo_seed`, `seed_events`: planning a template or demo seed and the events it
    records.
  - `env`, `dotenv`, `config`, `dirs`, `args`: environment, `.env` files, layered server
    configuration, data directories and command-line arguments.
  - `security`: bearer tokens, API keys and their verifiers.
  - `references`: wikilink and `kival://` reference parsing and resolution bookkeeping.
  - `kernel`, `transitions`, `admin`: stored vocabularies, errors, events, and the decisions
    inside the stored-state transitions and operator commands.
  - `crash`: the report printed after a fatal signal.
- `tests/` runs the library on concrete values.
- `app/` is the command-line program around the library: argument handling, files, the
  environment, and the serde copies of library types.
