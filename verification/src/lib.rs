//! Verified core of a family of market-data command-line clients
//! (Finage, Finnhub, Massive, Tiingo), a multi-provider market-data
//! library and a multi-provider chat-completion library.

pub mod text;
pub mod time;
pub mod table;
pub mod minute;
pub mod candle;
pub mod events;
pub mod stream;
pub mod finage;
pub mod finnhub;
pub mod massive;
pub mod tiingo;
pub mod market;
pub mod ai;
