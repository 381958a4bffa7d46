use vstd::prelude::*;

verus! {

/// A point in time as the database holds it: date and time of day, without a
/// time zone. The library hands such values on and never looks into them.
#[verifier::external_type_specification]
#[verifier::external_body]
pub struct ExNaiveDateTime(chrono::NaiveDateTime);

/// The key that the database gave to a new row.
#[derive(Debug, Clone, Copy, PartialEq, Eq, Structural)]
pub struct ID {
    pub id: i32,
}

/// A vote on a quote.
#[derive(Debug, Clone, Copy, PartialEq, Eq, PartialOrd, Structural)]
pub enum Vote {
    Upvote,
    Downvote,
}

/// One shard of a quote, joined with what the database knows of the quote:
/// the shards of a quote come one after the other, the one with index 1
/// first.
#[derive(Debug)]
pub struct QuoteShard {
    pub id: i32,
    pub index: i32,
    pub body: String,
    pub submitter: String,
    pub speaker: String,
    pub timestamp: chrono::NaiveDateTime,
    pub vote: Option<Vote>,
    pub score: i64,
    pub hidden_reason: Option<String>,
    pub hidden_actor: Option<String>,
    pub favorited: bool,
}

/// One open report, joined with the quote that it is about.
#[derive(Debug)]
pub struct ReportedQuoteShard {
    pub quote_id: i32,
    pub quote_submitter: String,
    pub quote_timestamp: chrono::NaiveDateTime,
    pub quote_hidden: bool,
    pub report_id: i32,
    pub report_reason: String,
    pub report_timestamp: chrono::NaiveDateTime,
    pub report_resolver: Option<String>,
}

} // verus!
