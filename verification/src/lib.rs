//! Correlates a livestream's time window with a player's recorded matches:
//! picks the records that fall inside the window, computes a timestamped
//! link into the stream for each of them, decides how the links are handed
//! to the record store, and renders a time-ordered summary of the stream.

pub mod battle;
pub mod config;
pub mod dispatch;
pub mod driver;
pub mod error;
pub mod instant;
mod keys;
pub mod line;
pub mod link;
pub mod matcher;
pub mod record;
pub mod salmon;
pub mod summary;
pub mod text;
pub mod youtube;
