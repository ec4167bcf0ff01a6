# cargo-build-sbpf

Build an SBPF program with upstream nightly Rust:

```sh
cargo build-sbpf
```

The architecture comes from `--arch`, then from the Cargo configuration, and is V3 where neither
says. Before building, the command checks the toolchain and the dependencies of the project,
and asks for permission before it changes anything.

## Layout

- `src/` is the library, written in Verus. It decides: every function states what it returns, and
  the laws that tie functions together stand beside them as proof functions.
- `app/` is the program around it. It reads files, asks the user and runs commands.
- `tests/` runs the library.

What the library relies on without proof is how `toml_edit`, `cargo_config2`, `rustc_version` and
two functions of `std` behave. Those statements stand in `src/toml.rs`, `src/linker.rs` and
`src/output.rs`.
