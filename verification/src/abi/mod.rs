//! The public interface of the stream contract: its inventory, and what may change in it.
pub mod baseline;
pub mod compatibility;
pub mod coverage;
pub mod decode;
pub mod evolution;
pub mod inventory;
pub mod reading_back;
pub mod recorded;
pub mod render;
pub mod reordering;
pub mod snapshot;
pub mod source;
pub mod spec_entry;
