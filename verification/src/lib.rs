//! Entity cache and social-interaction graph for a chat-platform bot.
//!
//! The library keeps two pieces of state derived from a stream of platform
//! events: a bounded, least-recently-used cache of the entities the events
//! mention, and one weighted directed graph per guild that records who
//! interacts with whom.  All of it is plain single-owner data: the caller
//! decides how to share it between tasks and performs every remote call.
//!
//! - [`model`]: the events and entities as the library reads them.
//! - [`cache`]: the cache, its mathematical model and the laws it obeys.
//! - [`inference`]: interactions, made from messages and reactions.
//! - [`social`]: the graphs, the changes that interactions make to them, and
//!   their text for Graphviz.
//! - [`commands`]: what a message asks the bot to do, and the answers in
//!   words.
//! - [`keyed`], [`text`]: sequences found by key; numbers and text.
//!
//! Every function is verified against its contract.  The tables are kept by
//! the `lru` crate, the graphs by `petgraph`, commands are parsed by
//! `twilight_command_parser`; what is taken on trust of them is stated where
//! they are called.

pub mod cache;
pub mod commands;
pub mod error;
pub mod inference;
pub mod keyed;
pub mod model;
pub mod social;
pub mod text;

pub use error::Error;
