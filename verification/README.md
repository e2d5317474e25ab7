# rune_kit

`rune_kit` is the verified core of `rune`, a package manager for MCP
(Model Context Protocol) plugins and an MCP gateway that serves installed
plugins over stdio. Plugins run either as sandboxed WebAssembly modules or as
native sidecar processes that speak JSON-RPC.

The library is written in Verus. Its functions state what they compute in
contracts over mathematical models (sequences of characters, JSON value
trees, record sequences keyed by name), and Verus proves the code against
them. Trait methods carry their trait's contract; the one function that
states nothing is the trusted wrapper for the data directory, whose result
depends on the environment.

## Layout

| Path | What it holds |
|---|---|
| `src/text.rs` | Character-level string operations and their specifications |
| `src/json.rs` | The JSON document model and its lookups |
| `src/keyed.rs` | Name-keyed record sequences (the lockfiles' maps) |
| `src/manifest.rs` | Plugin, skill and lockfile records |
| `src/version.rs` | Version parsing and ordering |
| `src/output.rs` | Fixed-budget text tables |
| `src/protocol.rs` | JSON-RPC routing and replies of the gateway |
| `src/registry.rs` | Reading the registry index and release descriptions |
| `src/package.rs` | Install, uninstall and self-update decisions |
| `src/provision.rs` | Host binaries: allowlists, locks, checksums |
| `src/runtime.rs` | Plugin sandboxes, host functions, sidecar exchange |
| `src/cli.rs` | Arguments, environment parameters, search |
| `app/` | The `rune` program: files, downloads, processes, Extism |
| `tests/` | Tests of the library on concrete values |

Trusted code is limited to a few wrappers around outside calls (SHA-256
from `sha2`, the data directory from `dirs`, the member names and contents
of release archives from `zip`, `tar` and `flate2`, `String::push` and
`str::to_lowercase` from std); each states in its doc comment what its
contract claims.
