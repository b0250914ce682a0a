//! A verified core for a Kalshi fifteen-minute bitcoin market terminal.
//!
//! Prices of the binary contracts are whole numbers of mils (thousandths of a
//! dollar) on a tapered grid of 281 levels; the order book keeps one signed share
//! count per level. Everything that talks to the network, the disk or the screen,
//! and everything that touches floating point, lives outside this crate.

pub mod price;
pub mod orderbook;
pub mod decimal;
pub mod market;
pub mod bundle;
pub mod feed;
pub mod session;
pub mod auth;
