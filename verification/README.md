# uc_cli

The verified core of `uc`, a build front end for Cairo projects that sits in
front of Scarb: it keys builds by their inputs, keeps a local build cache,
talks to a long-running daemon over a Unix socket, and can route a build to a
native compiler backend with a reported fallback to Scarb.

## Layout

- `src/` is the library, written in Verus. Every function carries a contract
  that Verus proves:
  - `build_route` decides how a build is routed (Scarb engine, native mode,
    daemon mode, local cache probes, probe and native-support hints, reported
    fallbacks) as a state machine, `build_route_step`, with its laws;
  - `build_cache` does the same for a build through the local cache (lookup,
    restore, compile, synchronous or background persist);
  - `comments` and `hashing` strip Cairo comments and hash sources so that
    comment text and trailing white space do not change a build's
    fingerprint; `fingerprint` and `fingerprint_pass` build the fingerprint;
  - `rate_limit`, `health` and `protocol` screen daemon requests;
  - the other modules hold the settings parsers, cache bookkeeping, path
    rules, version checks and native-build planning that these use.
- `tests/` runs the library on concrete values.
- `app/` is the command-line program: argument parsing, files, processes and
  the daemon socket. It performs the actions that the library's state
  machines choose and reports back what happened.

The calls into BLAKE3, the TOML and JSON parsers and `std::path` go through
a few trusted wrappers, each with a doc comment that says what its contract
claims of the outside code.
