# h2_rust

The core of an embedded SQL database engine, written in Verus: every
function in `src/` carries a contract that Verus proves.

- `engine/`: connection URLs and their settings, database settings, the
  database's start-up decisions.
- `mvstore/`: the multi-version store: its configuration, chunks, the page
  format, the LIRS page cache, maps and their roots.
- `h2_rust_common/`, `util/`: byte buffers, properties, number formats,
  string helpers.
- `message/`, `api/`: error codes and error messages.

`app/` holds what does I/O (files, memory size, the clock) and drives the
library; `tests/` runs the library on concrete values.
