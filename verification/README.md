# plex_pg_core

The core of a layer that lets a program written for SQLite keep its data in PostgreSQL: which
connection a thread gets, what text is sent to which database, what is remembered of a statement,
and what the program is told. Verus proves the functions of the library against their contracts;
what a few wrappers say of the standard library and of `sqlparser` is believed, and each says so.

## Layout

- `src/` is the verified library. Work that needs a database, a clock or memory outside the library
  is a state machine there: it says what to do next, and is handed the answer.
  - `pool`, `acquire`, `upkeep`, `registry`: the pool of connections;
  - `prepare`, `prepare_text`, `exec`, `step`, `retry`, `bind`: a statement's way through the layer;
  - `pg_statement`, `stmt_cache`, `lifecycle`, `drain`: what is remembered of statements;
  - `params`, `value`, `metadata`, `expand`, `decltype`, `machine_id`: values and answers;
  - `predicates`, `literals`, `inserts`, `upsert`, `strings`, `uri`, `hash`: rules on SQL text;
  - `backtrace`, `runtime`: what the process itself needs;
  - `bytes`, `text`, `search`, `c_strings`: bytes, characters and searches.
- `tests/` holds the tests.
- `app/` is ordinary Rust around the library: it runs the machines, holds the locks and speaks C.

Proof functions whose names begin with `law_` state what holds over several calls.
