//! Locates an external CLI tool (the agent CLI binary) and the Node.js runtime it
//! depends on.
//!
//! The library holds the deterministic core of that job: version comparison,
//! candidate ranking and deduplication, discovery-path construction, the
//! three-tier runtime fallback, archive-content selection, and launch
//! environment construction.  Everything that touches the outside world
//! (spawning processes, reading directories, downloading archives) is driven
//! by a thin shell around the library; the shell gathers raw probe results and
//! hands them in as plain values, so every decision made here is verified.

pub mod strutil;
pub mod version;
pub mod candidates;
pub mod ranking;
pub mod scanner;
pub mod resolver;
pub mod installer;
pub mod envbuild;
pub mod messages;
pub mod resolve;
