//! An IRC bouncer core: it stays connected to IRC networks on behalf of a
//! user, classifies and routes incoming protocol events into per-conversation
//! buffers, persists their lines into day-bucketed logs, and keeps per-client
//! scrollback cursors so any number of attached clients can fetch history
//! incrementally without duplicates or gaps.

pub mod alert;
pub mod buffer;
pub mod clock;
pub mod config;
pub mod entry;
pub mod handle;
pub mod lifecycle;
pub mod line;
pub mod logfmt;
pub mod logstore;
pub mod message;
pub mod messages;
pub mod model;
pub mod network;
pub mod routing;
pub mod session;
pub mod strutil;
pub mod types;
pub mod user;
pub mod wrap;
