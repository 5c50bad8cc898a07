//! Provenance of release artifacts and stability of the contract interface of a payment-stream
//! contract, as verified functions on plain values.
//!
//! A release is a directory of WebAssembly files. `release` builds its manifest and holds a
//! directory against one, and `clearance` proves what an accepted directory owes to its manifest.
//! `abi` reads the interface that a contract embeds, renders it, and decides whether a newer one
//! keeps the clients of an older one. The other modules hold what these stand on, and the models
//! by which runs of the contract are driven and judged.
pub mod abi;
pub mod artifacts;
pub mod authority;
pub mod build_inputs;
pub mod calendar;
pub mod clearance;
pub mod cli;
pub mod digest;
pub mod encoding;
pub mod failure;
pub mod json_doc;
pub mod json_text;
pub mod laws;
pub mod lifecycle;
pub mod manifest;
pub mod packaging;
pub mod profile_settings;
pub mod release;
pub mod sorting;
pub mod stream;
pub mod stream_ids;
pub mod text;
pub mod timestamps;
pub mod token_stubs;
pub mod toml_doc;
pub mod workspace;
