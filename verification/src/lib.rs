//! Synthetic market data: ticks, order book snapshots and candles of simulated markets, their
//! way into a ClickHouse database, and their way to clients over REST and WebSocket.
//!
//! The library decides; it does no I/O and no floating-point arithmetic. What a market does
//! with a tick stands in `generator`, what candles are in `candles`, and what holds over many
//! ticks in `streaming`. The `db` modules hold the wire formats, the buffered inserter and the
//! queries, `ws` the life of a feed connection, `api` the answers of the REST endpoints.
//! Calls into other crates stand behind small functions whose contracts are trusted, in
//! `decimal`, `sources`, `market` and `api`.

pub mod api;
pub mod candles;
pub mod config;
pub mod db;
pub mod decimal;
pub mod generator;
pub mod market;
pub mod models;
pub mod sources;
pub mod streaming;
pub mod text;
pub mod ws;
