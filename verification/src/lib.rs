//! A personal, file-backed catalog of physical media: a durable store of
//! catalog entries with per-copy lifecycle tracking, a generic selection
//! cursor for on-screen lists, and the navigation state machine that drives
//! both from keyboard events. Terminal rendering, the raw event source and
//! the remote catalog client live outside this crate and talk to it through
//! plain values.
pub mod app;
pub mod database;
pub mod discogs;
pub mod error;
pub mod item_holder;
pub mod json;
pub mod lines;
pub mod list;
pub mod query;
pub mod record;
pub mod record_detail;
pub mod settings;
pub mod text;
