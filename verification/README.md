# jarvis_desktop

The decision logic of the Jarvis desktop shell, written in Verus and proved
against its contracts.

- `src/` is the verified library: choosing a local model for the machine's
  RAM, the inference-source configuration and the boot plan derived from it,
  cloud-key naming and bookkeeping, provider model catalogs, the backend boot
  sequence as a state machine, the diagnostics shown to the user, the paths
  under the home directory, the tray's decisions and the helpers of the UI
  commands.
- `tests/` runs the library on concrete values.
- `app/` is ordinary Rust around it: files, the OS credential store, HTTP,
  child processes and the serde shapes of `inference.json`. It performs the
  actions the library decides on (which program to start, with which
  arguments and environment, and what to report), converting bytes and paths
  on the way. What it still chooses by itself: where the bundled runtime,
  the voice satellite and the executables are found, and the environment
  fixes for AppImage and `~/.cargo/bin`.

Outside crates are reached from `src/` only through a few trusted items:
`serde_json` parses JSON text (the result is named, not restated) and
`toml_edit` edits `config.toml`.
