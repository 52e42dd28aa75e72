//! Trend-following candle bot and the quote-stream wire protocol, verified.
//!
//! Prices are fixed-point integers: one unit is `1 / PRICE_SCALE` of a quote
//! currency unit (see `decimal::PRICE_SCALE`).
pub mod candlestick;
pub mod error;
pub mod decimal;
pub mod text;
pub mod frame;
pub mod quote_stream;
pub mod trade;
pub mod message;
pub mod bot;
pub mod session;
pub mod handshake;
pub mod quote;
