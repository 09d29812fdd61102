# rustup_toolchain

A Verus-verified library for the toolchains of the Rust toolchain installer.

- `src/desc.rs` reads a toolchain name as `<channel>[-<YYYY-MM-DD>]-<target>`;
  names that do not read so are custom toolchains.
- `src/toolchain.rs`, `src/install.rs`, `src/inventory.rs` and `src/command.rs`
  hold the toolchain's operations. Each takes what the caller observed (whether the
  directory exists, the manifest that was read, the environment) and returns what
  to report and what to do next: notifications, install plans, component changes,
  command lines and their environment.
- `src/component.rs` models the parts of a distribution manifest that components
  are named, listed, sorted and suggested by.
- `src/path.rs` joins paths as the platform does: `/` elsewhere, `\` with drive
  and share prefixes on Windows.
- `src/laws.rs` states properties that span operations.
- `app/lib.rs` does the I/O: it probes the file system and the environment, builds
  processes, and drives the library's plans.

The tests under `tests/` run the library on concrete values.
