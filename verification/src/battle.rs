//! Battle records as the record store lists them.

use crate::record::Timestamped;
use vstd::prelude::*;

verus! {

/// A point in time as the record store writes it: Unix seconds, and the
/// same moment as an RFC 3339 text.
#[derive(Debug, Clone)]
pub struct Time {
    pub time: i64,
    pub iso8601: String,
}

/// One battle of the player's log.
#[derive(Debug, Clone)]
pub struct Log {
    pub id: String,
    pub url: String,
    pub uuid: String,
    pub start_at: Time,
}

impl Timestamped for Log {
    open spec fn id_text(&self) -> Seq<char> {
        self.id@
    }

    open spec fn start_text(&self) -> Seq<char> {
        self.start_at.iso8601@
    }

    fn record_id(&self) -> (id: &str) {
        self.id.as_str()
    }

    fn start_iso8601(&self) -> (text: &str) {
        self.start_at.iso8601.as_str()
    }
}

} // verus!
