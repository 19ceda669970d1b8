# flutter_mcp

A Model Context Protocol server that drives a running Flutter application through its
Dart VM Service: UI snapshots, gestures through Flutter Driver, logs, detected errors,
performance reports, and hot injection of Flutter Driver into an app's entrypoint.

## Layout

- `src/` — the verified library (Verus): executable functions with contracts, and laws
  proved over the spec functions those contracts use.
  - `text.rs`, `json.rs`, `codec.rs` — character sequences, the JSON model, Base64 and
    UTF-8 decoding (the `base64` crate and std, behind trusted wrappers).
  - `entities.rs`, `finder.rs` — logs, errors, frame timings, widget trees, finders.
  - `services/` — the domain services: driver injection into `main.dart` and
    `pubspec.yaml`, error detection in stdout, timeline analysis, tree pruning, finder
    resolution, log parsing; `main_search.rs` proves that inserting the driver import
    neither adds nor hides a `main` function.
  - `application/` — errors, log filtering, the performance window, and the
    `start_control` flow as a state machine.
  - `vm/` — the VM Service side: Flutter Driver commands and replies, the pre-check
    timeout, gesture dispatch as a state machine, the bounded log and error buffers.
  - `tools.rs` — MCP tool parameters and the texts the tools answer with.
- `app/` — the executable: stdio MCP server (`rmcp`), WebSocket transport
  (`tokio-tungstenite`), file system access, and the simulated VM Service (`--mock`).
- `tests/` — tests of the library.
