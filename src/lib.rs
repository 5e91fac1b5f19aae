//! A small knowledge store: text experiences are appended to an ordered,
//! id-keyed store, indexed by keyword, and consulted to score decisions and
//! to build retrieval-augmented replies.
pub mod api;
pub mod chat;
pub mod config;
pub mod decision;
pub mod document;
pub mod experience;
pub mod export;
pub mod learning;
pub mod memory;
pub mod ollama;
pub mod pattern;
pub mod text;
