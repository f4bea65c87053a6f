//! A bounded top-of-book view of a market, kept current from a stream of
//! per-price updates, together with the session rules of the feed that
//! delivers them.

pub mod decimal;
pub mod decode;
pub mod display;
pub mod levels;
pub mod listener;
pub mod models;
pub mod orderbook;
pub mod server;
pub mod websocket;
