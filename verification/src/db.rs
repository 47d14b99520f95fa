//! What is written to the database and read from it: rows, their wire forms, the queries,
//! the buffered inserter and the metrics.

pub mod ch_datetime;
pub mod ch_decimal;
pub mod history;
pub mod inserter;
pub mod metrics;
pub mod rows;
pub mod settings;
