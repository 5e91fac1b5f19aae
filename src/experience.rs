//! One stored text record with its provenance.
use vstd::prelude::*;
use crate::text::{int_text, signed_decimal};

verus! {

/// One immutable text record. `timestamp` counts milliseconds since the Unix
/// epoch, UTC.
pub struct Experience {
    pub id: String,
    pub timestamp: i64,
    pub source: String,
    pub content: String,
    pub metadata: Option<String>,
}

impl Clone for Experience {
    fn clone(&self) -> (r: Self)
        ensures
            r == *self,
    {
        let metadata = match &self.metadata {
            Some(m) => Some(m.clone()),
            None => None,
        };
        Experience {
            id: self.id.clone(),
            timestamp: self.timestamp,
            source: self.source.clone(),
            content: self.content.clone(),
            metadata,
        }
    }
}

/// The id a record made at `timestamp` by `source` starts from:
/// `<timestamp>-<source>`.
pub open spec fn experience_id(timestamp: int, source: Seq<char>) -> Seq<char> {
    int_text(timestamp) + seq!['-'] + source
}

/// Relies on `chrono::Utc::now` and `DateTime::timestamp_millis`: the current
/// time in milliseconds; nothing is known of its value.
#[verifier::external_body]
pub(crate) fn now_millis() -> (r: i64) {
    chrono::Utc::now().timestamp_millis()
}

/// What chrono renders with `%Y-%m-%d %H:%M:%S` for the instant `ms`
/// milliseconds after the Unix epoch, UTC (empty for an instant chrono cannot
/// represent).
pub uninterp spec fn datetime_text(ms: int) -> Seq<char>;

/// What chrono renders with `%H:%M:%S` for the instant `ms` milliseconds after
/// the Unix epoch, UTC (empty for an instant chrono cannot represent).
pub uninterp spec fn clock_text(ms: int) -> Seq<char>;

/// Relies on `chrono::DateTime::from_timestamp_millis` and `format`: the text
/// depends on the instant alone.
#[verifier::external_body]
pub(crate) fn format_datetime(ms: i64) -> (r: String)
    ensures
        r@ == datetime_text(ms as int),
{
    match chrono::DateTime::from_timestamp_millis(ms) {
        Some(t) => t.format("%Y-%m-%d %H:%M:%S").to_string(),
        None => String::new(),
    }
}

/// Relies on `chrono::DateTime::from_timestamp_millis` and `format`: the text
/// depends on the instant alone.
#[verifier::external_body]
pub(crate) fn format_clock(ms: i64) -> (r: String)
    ensures
        r@ == clock_text(ms as int),
{
    match chrono::DateTime::from_timestamp_millis(ms) {
        Some(t) => t.format("%H:%M:%S").to_string(),
        None => String::new(),
    }
}

impl Experience {
    /// A record of `content` from `source`, stamped with `timestamp`.
    pub fn recorded_at(content: &str, source: &str, timestamp: i64) -> (r: Experience)
        ensures
            r.content@ == content@,
            r.source@ == source@,
            r.timestamp == timestamp,
            r.metadata is None,
            r.id@ == experience_id(timestamp as int, source@),
    {
        let mut id = signed_decimal(timestamp);
        id.append("-");
        id.append(source);
        proof {
            reveal_strlit("-");
        }
        Experience {
            id,
            timestamp,
            source: String::from_str(source),
            content: String::from_str(content),
            metadata: None,
        }
    }

    /// A record of `content` from `source`, stamped with the current time.
    pub fn new(content: &str, source: &str) -> (r: Experience)
        ensures
            r.content@ == content@,
            r.source@ == source@,
            r.metadata is None,
            r.id@ == experience_id(r.timestamp as int, source@),
    {
        Self::recorded_at(content, source, now_millis())
    }

    /// A record like [`Experience::new`] that carries `metadata`.
    pub fn with_metadata(content: &str, source: &str, metadata: String) -> (r: Experience)
        ensures
            r.content@ == content@,
            r.source@ == source@,
            r.metadata == Some(metadata),
            r.id@ == experience_id(r.timestamp as int, source@),
    {
        let mut exp = Self::new(content, source);
        exp.metadata = Some(metadata);
        exp
    }
}

} // verus!
