# perspective

A verified core for the Perspective table engine, written in Verus.

## Layout

- `src/view_config.rs` — filter operators, sort directions and aggregates:
  their texts, reading them back, cycling sort directions, and the
  aggregates offered per column type.
- `src/dtype.rs` — the engine's column data types, their byte codes, names
  and the type names clients are shown.
- `src/name_map.rs` — an insertion-ordered map from column names to values.
- `src/api.rs` — the schema a client is told of a table.
- `src/ffi.rs` — the engine's table schema, its correspondence with Arrow
  types, and the per-column decisions made when tables are written to or
  read from Arrow (including the conversion of packed engine dates).
- `src/transport.rs` — the buffers that route replies to the readers of
  each table, and the server's table registry and request handling.
- `app/` — serde forms of the view configuration, conversion to and from
  `arrow-schema`, and the asynchronous client API.
- `tests/` — tests of the library.

## What is not here

- Filling and reading the columns of the engine's tables (the bodies of the
  Arrow reader and writer, and the table, column and pool types) is done by
  the C++ engine through `cxx`; its sources are not part of this project, so
  only the decisions made around those calls are carried: the schema read
  from Arrow, how each column is read or written, the per-batch plan of
  which column is filled at which row, validity masks, offsets and dates.
- The protocol messages are generated from a `.proto` file that is not part
  of this project, so the envelope packing and the request loops of the
  remote and in-memory clients and of the socket server are not carried;
  what those loops decide per request is (`server_action`,
  `memory_client_action`, `TableRegistry`, `RecvBuffer`, `SocketBuffer`).
- The browser bindings and the web server are not carried.
