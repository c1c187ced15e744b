//! The unit of migration: a record built from one source row, with its
//! timestamp derived from the row's date text.

use crate::datetime::{derive_timestamp, derived_timestamp, wf_datetime};
use vstd::prelude::*;
use vstd::utf8::encode_utf8;

verus! {

/// One row as the source hands it over: the four selected columns, already
/// coerced to their semantic types.
pub struct SourceRow {
    pub identifier: u32,
    pub date_text: String,
    pub content: String,
    pub title: String,
}

/// The unit of migration. Immutable once constructed; every field populated,
/// with a sentinel `timestamp` standing in when the date text is malformed.
pub struct Record {
    /// Source-assigned identifier, kept for diagnostics only.
    pub identifier: u32,
    /// The original date text, kept verbatim for diagnostics.
    pub raw_date_text: String,
    /// Seconds since the epoch, derived from `raw_date_text`.
    pub timestamp: i64,
    /// Payload to be migrated, opaque to the pipeline.
    pub content: String,
    /// Secondary field, used only in diagnostics, never persisted.
    pub title: String,
}

/// Report of one date text that could not be parsed; carries what an
/// operator needs for triage.
pub struct ParseDiagnostic {
    pub raw_date_text: String,
    pub title: String,
}

/// The UTF-8 bytes of a string's characters.
pub open spec fn text_bytes(t: Seq<char>) -> Seq<u8> {
    encode_utf8(t)
}

/// A record is well formed when its timestamp is the one its date text
/// derives: the denoted instant for a well-formed date, else the sentinel.
pub open spec fn record_wf(r: Record) -> bool {
    r.timestamp == derived_timestamp(text_bytes(r.raw_date_text@))
}

/// The record carries the row's fields, and the timestamp the row's date
/// text derives.
pub open spec fn record_of_row(row: SourceRow, r: Record) -> bool {
    &&& r.identifier == row.identifier
    &&& r.raw_date_text@ == row.date_text@
    &&& r.content@ == row.content@
    &&& r.title@ == row.title@
    &&& r.timestamp == derived_timestamp(text_bytes(row.date_text@))
}

/// The diagnostic reports the row's date text and title.
pub open spec fn diagnostic_of_row(row: SourceRow, d: ParseDiagnostic) -> bool {
    &&& d.raw_date_text@ == row.date_text@
    &&& d.title@ == row.title@
}

/// The row's date text is well formed.
pub open spec fn row_date_wf(row: SourceRow) -> bool {
    wf_datetime(text_bytes(row.date_text@))
}

impl Record {
    /// Build the record for one source row: derive the timestamp from the
    /// row's date text, substituting the sentinel when the text is
    /// malformed, and in that case also report a diagnostic.
    pub fn from_row(row: SourceRow) -> (r: (Record, Option<ParseDiagnostic>))
        ensures
            record_of_row(row, r.0),
            record_wf(r.0),
            r.1 is Some <==> !row_date_wf(row),
            r.1 matches Some(d) ==> diagnostic_of_row(row, d),
    {
        let ts: i64 = derive_timestamp(row.date_text.as_str().as_bytes());
        let diagnostic: Option<ParseDiagnostic> = if wf_date_text(&row.date_text) {
            None
        } else {
            Some(
                ParseDiagnostic {
                    raw_date_text: row.date_text.clone(),
                    title: row.title.clone(),
                },
            )
        };
        let record = Record {
            identifier: row.identifier,
            raw_date_text: row.date_text,
            timestamp: ts,
            content: row.content,
            title: row.title,
        };
        (record, diagnostic)
    }
}

/// Whether a string is a well-formed date text.
pub fn wf_date_text(t: &String) -> (r: bool)
    ensures
        r == wf_datetime(text_bytes(t@)),
{
    match crate::datetime::parse_datetime(t.as_str().as_bytes()) {
        Some(_) => true,
        None => false,
    }
}

} // verus!
