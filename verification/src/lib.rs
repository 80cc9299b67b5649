//! Media-library backend core: release-name parsing, file naming,
//! indexer result handling, Soulseek transfer bookkeeping and the
//! request/response types of the HTTP API.

pub mod text;
pub mod number;
pub mod regexes;
pub mod config;
pub mod models;
pub mod naming;
pub mod storage;
pub mod parser;
pub mod indexer;
pub mod providers;
pub mod scrape;
pub mod error;
pub mod soulseek;
pub mod net;
pub mod api;
pub mod auth;
pub mod tmdb;
pub mod views;
