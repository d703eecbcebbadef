//! A search engine core for a catalogue of trading cards.
//!
//! The catalogue is small and lives in memory. A query is a line of text in
//! a small language; the library parses it into a list of typed
//! restrictions, filters the catalogue by them, and ranks what is left by
//! its likeness to the query text. Parser, evaluator and ranker are pure
//! functions, and their contracts say exactly what they return.
//!
//! - [`cards`]: the card model.
//! - [`collection`]: a snapshot of the catalogue with unique ids, and lookup
//!   by id.
//! - [`query`]: the typed form of a query.
//! - [`grammar`]: the query language, as functions on character sequences.
//! - [`parser`]: query text to restriction list.
//! - [`render`]: restriction list to canonical query text.
//! - [`eval`]: whether a card passes a restriction list.
//! - [`similarity`], [`rank`]: the relevance score and the order by it.
//! - [`search`]: parse, filter and rank in one call.
//! - [`site`]: what the web front decides about paths and page text.
//! - [`roundtrip`], [`joining`], [`laws`]: properties that hold of all of
//!   the above.
//! - [`text`]: helpers on characters.

pub mod cards;
pub mod collection;
pub mod eval;
pub mod grammar;
pub mod joining;
pub mod laws;
pub mod parser;
pub mod query;
pub mod rank;
pub mod render;
pub mod roundtrip;
pub mod search;
pub mod similarity;
pub mod site;
pub mod text;
