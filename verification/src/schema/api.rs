use crate::schema::db::Vote;
use vstd::prelude::*;

verus! {

/// A quote as it is submitted: its shards, in order.
#[derive(Debug, Clone)]
pub struct NewQuote {
    pub shards: Vec<NewQuoteShard>,
}

/// What one speaker said.
#[derive(Debug, Clone)]
pub struct NewQuoteShard {
    pub body: String,
    pub speaker: String,
}

/// The reason that a user gives for hiding or reporting a quote.
#[derive(Debug, Clone)]
pub struct Reason {
    pub reason: String,
}

/// The parameters of a search for quotes, as the request gives them.
#[derive(Debug, Clone)]
pub struct FetchParams {
    pub q: Option<String>,
    pub lt: Option<i32>,
    pub limit: Option<i64>,
    pub submitter: Option<String>,
    pub speaker: Option<String>,
    pub involved: Option<String>,
    pub hidden: Option<bool>,
    pub favorited: Option<bool>,
    pub sort: Option<String>,
    pub sort_direction: Option<bool>,
}

/// Why a quote is hidden, and who hid it.
#[derive(Debug, Clone)]
pub struct Hidden {
    pub reason: String,
    pub actor: UserResponse,
}

/// A quote as it is shown.
#[derive(Debug)]
pub struct QuoteResponse {
    pub submitter: UserResponse,
    pub timestamp: chrono::NaiveDateTime,
    pub shards: Vec<QuoteShardResponse>,
    pub id: i32,
    pub vote: Option<Vote>,
    pub score: i64,
    pub hidden: Option<Hidden>,
    pub favorited: bool,
}

/// One shard of a quote as it is shown.
#[derive(Debug, Clone)]
pub struct QuoteShardResponse {
    pub body: String,
    pub speaker: UserResponse,
}

/// A user: the name by which the directory knows the user, and the common
/// name.
#[derive(Debug, Clone)]
pub struct UserResponse {
    pub cn: String,
    pub uid: String,
}

/// The open reports on one quote.
#[derive(Debug)]
pub struct ReportedQuoteResponse {
    pub quote_id: i32,
    pub reports: Vec<ReportResponse>,
}

/// One report.
#[derive(Debug)]
pub struct ReportResponse {
    pub reason: String,
    pub timestamp: chrono::NaiveDateTime,
    pub id: i32,
}

/// Whether the quote is to be hidden when its reports are resolved.
#[derive(Debug, Clone, Copy)]
pub struct ResolveParams {
    pub hide: Option<bool>,
}

/// The vote of a request.
#[derive(Debug, Clone, Copy)]
pub struct VoteParams {
    pub vote: Vote,
}

/// The build that is running.
#[derive(Debug, Clone)]
pub struct VersionResponse {
    pub revision: String,
    pub date: String,
    pub build_date: String,
    pub url: String,
}

/// A user as contracts speak of one.
pub ghost struct UserView {
    pub cn: Seq<char>,
    pub uid: Seq<char>,
}

impl View for UserResponse {
    type V = UserView;

    open spec fn view(&self) -> UserView {
        UserView { cn: self.cn@, uid: self.uid@ }
    }
}

/// A shown shard as contracts speak of one.
pub ghost struct ShardView {
    pub body: Seq<char>,
    pub speaker: UserView,
}

impl View for QuoteShardResponse {
    type V = ShardView;

    open spec fn view(&self) -> ShardView {
        ShardView { body: self.body@, speaker: self.speaker@ }
    }
}

/// The hiding of a quote as contracts speak of it.
pub ghost struct HiddenView {
    pub reason: Seq<char>,
    pub actor: UserView,
}

impl View for Hidden {
    type V = HiddenView;

    open spec fn view(&self) -> HiddenView {
        HiddenView { reason: self.reason@, actor: self.actor@ }
    }
}

/// A shown quote as contracts speak of one.
pub ghost struct QuoteView {
    pub submitter: UserView,
    pub timestamp: chrono::NaiveDateTime,
    pub shards: Seq<ShardView>,
    pub id: i32,
    pub vote: Option<Vote>,
    pub score: i64,
    pub hidden: Option<HiddenView>,
    pub favorited: bool,
}

impl View for QuoteResponse {
    type V = QuoteView;

    open spec fn view(&self) -> QuoteView {
        QuoteView {
            submitter: self.submitter@,
            timestamp: self.timestamp,
            shards: self.shards@.map_values(|shard: QuoteShardResponse| shard@),
            id: self.id,
            vote: self.vote,
            score: self.score,
            hidden: match self.hidden {
                Some(hidden) => Some(hidden@),
                None => None,
            },
            favorited: self.favorited,
        }
    }
}

/// A report as contracts speak of one.
pub ghost struct ReportView {
    pub reason: Seq<char>,
    pub timestamp: chrono::NaiveDateTime,
    pub id: i32,
}

impl View for ReportResponse {
    type V = ReportView;

    open spec fn view(&self) -> ReportView {
        ReportView { reason: self.reason@, timestamp: self.timestamp, id: self.id }
    }
}

/// The reports on one quote as contracts speak of them.
pub ghost struct ReportedQuoteView {
    pub quote_id: i32,
    pub reports: Seq<ReportView>,
}

impl View for ReportedQuoteResponse {
    type V = ReportedQuoteView;

    open spec fn view(&self) -> ReportedQuoteView {
        ReportedQuoteView {
            quote_id: self.quote_id,
            reports: self.reports@.map_values(|report: ReportResponse| report@),
        }
    }
}

} // verus!
