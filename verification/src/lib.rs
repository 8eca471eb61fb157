//! Market-data ingestion for the Kite ticker, and the rules of the program
//! around it.
//!
//! The heart is the path of a tick: `decode` reads binary frames into ticks,
//! `ws` and `session` say how a websocket session subscribes, runs and ends,
//! `backoff` spaces the reconnects, and `store` keeps the latest tick of
//! every instrument with the metrics derived from it. `selector` and
//! `supervisor` choose what to subscribe to.
//!
//! Prices are held exactly, as integers in paise (hundredths of a rupee), the
//! unit the wire carries. Ratios and rates are held as exact quotients.
//!
//! The rest are the rules that the program follows outside that path:
//! reading its setup and its command line, logging a user in, and refreshing
//! the catalog of instruments.

pub mod ticks;
pub mod decode;
pub mod frame_laws;
pub mod text;
pub mod store;
pub mod store_laws;
pub mod error;
pub mod url;
pub mod subscribe;
pub mod backoff;
pub mod ws;
pub mod session;
pub mod tick_log;
pub mod clock;
pub mod profile;
pub mod selector;
pub mod supervisor;
pub mod config;
pub mod cli;
pub mod api;
pub mod kite_types;
pub mod kite_auth;
pub mod totp;
pub mod autologin;
pub mod selenium;
pub mod instruments;
pub mod copy_text;
pub mod db;
