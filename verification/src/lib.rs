//! Decision logic of a market-data websocket collector: message routing,
//! heartbeat (ping/pong) checks, subscription planning, reconnect back-off,
//! trade bucketing and ticker buffering.
pub mod auth;
pub mod buckets;
pub mod clock;
pub mod common;
pub mod config;
pub mod connection;
pub mod heartbeat;
pub mod history;
pub mod ids;
pub mod json;
pub mod routing;
pub mod subscription;
pub mod text;
pub mod tickers;
pub mod topics;
pub mod trades;
