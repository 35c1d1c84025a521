# convex_backend

The core of a function backend, written in Rust and verified with Verus: what it does is stated in
`requires` and `ensures`, and proved.

## What is in it

Values and JSON

- `value` — values, and the JSON that stands for them; decoding what was encoded gives the value back
- `serialize`, `object_json`, `packed` — values and objects as JSON, and as packed text
- `canonical` — the form in which what a function returns is packed
- `json`, `json_text` — JSON trees, and reading and writing them through `serde_json`
- `pointer`, `edit` — JSON Pointers, and editing a document at one
- `patch`, `patch_laws` — patches between two packed values; applying one restores the new value
- `base64_text`, `lossy`, `text`, `order` — text in its various forms

Functions in WebAssembly

- `abi`, `limits` — what guest and host agree on, and how much a guest may use
- `validation`, `sections` — which modules are let in, and the memories that a binary declares
- `engine`, `cache` — compiling modules, and keeping what was compiled
- `guest`, `call_data`, `host` — guest memory, call data, and the host functions
- `determinism` — virtual clocks, and randomness from a seed
- `invocation` — the stages of an invocation, and what comes out
- `replay` — whole runs: one that is repeated comes out the same
- `db` — the database host functions, step by step
- `guest_runtime`, `macros` — the guest's side, and the code that is generated for it

Services

- `runner`, `language` — where a function runs
- `fetch` — which addresses functions may reach
- `sse` — server-sent events
- `node_executor` — the Node process
- `object_key` — keys of objects in storage

Properties that relate several functions stand beside them as public proof functions, such as
`patch_round_trip`, `write_then_read`, `keys_stay_inside` or `only_user_tables_are_touched`.

## Layout

- `src/` is the library. Functions marked `external_body` call other crates; the doc comment of each
  says what is taken for granted of the call.
- `tests/` runs the library, with the other crates linked.
- `app/` holds the services around the library: network and process I/O, the WebAssembly runtime
  with its linker, and the async loops that drive the library's state machines.
