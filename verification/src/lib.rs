//! Verified core of a registry publish smoke test.
//!
//! The library models semantic versions as plain `major.minor.patch`
//! triples, renders and parses their canonical text form, builds the
//! registry URLs and the scaffolded project files, checks the registry's
//! post-publish answer against the expected name and version, and drives
//! the whole run as a step-by-step pipeline whose decisions are verified.
//! All network and process I/O is left to the surrounding binary.

pub mod decimal;
pub mod pipeline;
pub mod registry;
pub mod scaffold;
pub mod version;
