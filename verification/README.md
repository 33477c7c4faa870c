# trix

The logic of a command-line front end for Nix, verified with Verus: how
commands are planned (the `nix`, `nix-build`, `nixos-rebuild` command lines),
how flake lock files are updated, how profile generations and derivations are
compared, and the texts the commands print.

- `src/` — the verified library. `src/cli/` holds one module per subcommand;
  `json`, `text`, `numtext`, `order`, `assoc` model JSON documents, texts,
  numbers, sorted listings and small maps; `paint` gives terminal styles
  through `owo_colors`.
- `tests/` — tests of the library on concrete values.
- `app/` — ordinary Rust around the library, as functions (there is no
  command-line entry point): `clap` copies of the option types, `serde`
  copies of the file formats, and the processes and files of `flake lock`,
  `metadata`, `init` and `new`, of the `profile` listings, history, closure
  diffs and rollback, of `diff`, and of `develop` on `nix-shell`, with sizes
  in floating point. The other subcommands first tell a local installable
  from a remote one, or evaluate a flake; that resolution and that evaluator
  are not part of this project, so `app/` does not run them.
