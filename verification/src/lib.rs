//! A poll and vote state engine: the rules by which one participant's action
//! changes a poll's tally, the snapshot shown after every accepted action, the
//! sealed record kept for each poll, and the bookkeeping that lets only the
//! newest snapshot of a poll reach its readers.
//!
//! The library decides and computes; it neither sends nor stores. Its caller
//! reads the clock, talks to the store and to the chat service, and hands
//! the library what came back.

pub mod clock;
pub mod codec;
pub mod config;
pub mod coordinator;
pub mod engine;
pub mod interaction;
pub mod owner;
pub mod ping;
pub mod poll;
pub mod render;
pub mod request;
pub mod scan;
pub mod store;
pub mod text;
