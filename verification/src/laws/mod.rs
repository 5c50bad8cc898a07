//! What the operations are for, said of their inputs and results.
//!
//! Each law holds of all inputs. It speaks of the texts, bytes and lists that go in and come out,
//! so that it pins down what the definitions elsewhere must amount to.
pub mod calls;
pub mod command;
pub mod days;
pub mod declarations;
pub mod decoding;
pub mod documents;
pub mod inputs;
pub mod lettering;
pub mod messages;
pub mod ordering;
pub mod packages;
pub mod record;
pub mod releases;
pub mod rendering;
pub mod reports;
pub mod runs;
