//! A scraper for an imageboard that keeps an archive in a legacy-compatible schema.
//!
//! The library holds the logic of the scraper as verified functions: change detection over a
//! board's thread index (`poller`), reconciliation of successive snapshots of a thread
//! (`updater`), the conditional, retrying and rate-limited fetch rules (`fetch`, `retry`,
//! `rate_limiter`), and the rows and markup that are written to the archive (`database`,
//! `bbcode`, `html`).

pub mod bbcode;
pub mod board;
pub mod config;
pub mod database;
pub mod fetch;
pub mod four_chan;
pub mod html;
pub mod order;
pub mod poller;
pub mod rate_limiter;
pub mod retry;
pub mod text;
pub mod updater;
