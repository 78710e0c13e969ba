# wb_switch

A verified library for switching WorkBuddy accounts and for offering them to OpenAI
clients.

- `src/edition.rs`, `src/path.rs`: the two editions of the client and their files.
- `src/session/`: the sessions of the client as tables: listing, sharing between all
  accounts, copying to one account, and what holds of these together (`laws.rs`).
- `src/switch.rs`: a switch, step by step, and in which order its steps may come.
- `src/client_ctl.rs`: finding, watching, closing and starting the client.
- `src/webview_guard.rs`: recovery from a window that stays blank.
- `src/proxy/`: the gateway. `pool.rs` and `account.rs` choose accounts, `upstream.rs`
  and `chat.rs` deal with one request, `frame.rs`, `pump.rs` and `stream_laws.rs` with
  streams, `aggregate.rs` with whole answers, `models.rs`, `usage.rs`, `config.rs` and
  `lifecycle.rs` with the rest.
- `src/json.rs`, `src/text.rs`: documents and texts, and their mathematical models.
- `app/`: the program around the library: files, processes, databases, the network.
- `tests/`: tests on concrete values.

The library reads no clock, file or socket. Where a decision depends on one, it takes
what was read as a plain value, and says what is to be done next. JSON text is read and
written by `serde_json`, new identifiers are made by `uuid`; the contracts of these
calls are stated where the calls are made, and believed.
