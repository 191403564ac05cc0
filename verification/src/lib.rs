//! Discovers published Spore content items from the spore.com Atom catalog
//! and derives the sharded download location of each item's image artifact.
//!
//! The feed-parsing, classification and URL/path derivation logic is verified;
//! network and filesystem work is left to callers of this library.

pub mod digits;
pub mod error;
pub mod feed_parser;
pub mod spore_server;
pub mod spore_user;
pub mod sporecast;
pub mod text;
pub mod xml;
