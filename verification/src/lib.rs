//! A library for resolving Visual Studio Code extension identifiers to
//! downloadable package archives and retrieving them in batches.
//!
//! The pieces: a parser for `author.name@version` identifier tokens, a
//! resolver that derives the download URL and destination filename for a
//! parsed identifier, a streaming download engine modelled as a state
//! machine driven by transport events, and a batch runner that records one
//! outcome per identifier in input order.

pub mod batch;
pub mod cli;
pub mod downloader;
pub mod extension;
