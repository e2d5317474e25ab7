//! Rune Kit: the verified core of an MCP plugin runtime and package manager.
//!
//! The library holds the decisions that the `rune` command makes: how tables
//! are laid out, how registry indexes are read, how versions compare, how an
//! installation is planned, how plugin binaries are provisioned, and how the
//! MCP gateway routes JSON-RPC requests between namespaced plugins.
pub mod text;
pub mod json;
pub mod keyed;
pub mod manifest;
pub mod output;
pub mod version;
pub mod protocol;
pub mod registry;
pub mod package;
pub mod provision;
pub mod runtime;
pub mod cli;
