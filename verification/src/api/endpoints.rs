use crate::auth::kevlar::{contains_name, names};
use crate::schema::api::{
    FetchParams, Hidden, HiddenView, NewQuote, NewQuoteShard, QuoteResponse, QuoteShardResponse,
    QuoteView, ReportResponse, ReportView, ReportedQuoteResponse, ReportedQuoteView, ShardView,
    UserResponse, UserView,
};
use crate::schema::db::{QuoteShard, ReportedQuoteShard};
use sha3::Digest;
use vstd::string::StringSliceAdditionalSpecFns;
use vstd::utf8::encode_utf8;
use crate::utils::{is_valid_username, valid_username};
use vstd::prelude::*;
use vstd::slice::slice_to_vec;
use vstd::string::StringExecFns;

verus! {

/// The most shards that a quote can have.
pub const MAX_SHARDS: usize = 6;

/// Why a quote is not taken.
#[derive(Debug, Clone, Copy, PartialEq, Eq, Structural)]
pub enum QuoteError {
    /// The quote has no shard.
    NoShards,
    /// The quote has more than [`MAX_SHARDS`] shards.
    TooManyShards,
    /// The name of a speaker is not a valid user name.
    InvalidSpeaker,
    /// The submitter is one of the speakers.
    SelfQuote,
    /// The name of the submitter is not a valid user name.
    InvalidSubmitter,
    /// One of the speakers is on the blocklist.
    BlockedSpeaker,
    /// The directory does not know one of the users.
    UnknownUser,
}

impl QuoteError {
    /// What the submitter is told.
    pub fn message(&self) -> (text: &'static str)
        ensures
            text@ == match *self {
                QuoteError::NoShards => "No quote shards specified"@,
                QuoteError::TooManyShards => "Maximum of 6 shards exceeded."@,
                QuoteError::InvalidSpeaker => "Invalid speaker username format specified."@,
                QuoteError::SelfQuote => "Erm... maybe don't quote yourself?"@,
                QuoteError::InvalidSubmitter =>
                    "Invalid submitter username specified. SHOULD NEVER HAPPEN!"@,
                QuoteError::BlockedSpeaker => "One or more speakers cannot be quoted"@,
                QuoteError::UnknownUser => "Some users submitted do not exist."@,
            },
    {
        match self {
            QuoteError::NoShards => "No quote shards specified",
            QuoteError::TooManyShards => "Maximum of 6 shards exceeded.",
            QuoteError::InvalidSpeaker => "Invalid speaker username format specified.",
            QuoteError::SelfQuote => "Erm... maybe don't quote yourself?",
            QuoteError::InvalidSubmitter =>
                "Invalid submitter username specified. SHOULD NEVER HAPPEN!",
            QuoteError::BlockedSpeaker => "One or more speakers cannot be quoted",
            QuoteError::UnknownUser => "Some users submitted do not exist.",
        }
    }
}

/// What is wrong with one shard of a quote that `submitter` submits: the name
/// of its speaker is not valid, or the speaker is the submitter.
pub open spec fn shard_fault(shard: NewQuoteShard, submitter: Seq<char>) -> Option<QuoteError> {
    if !valid_username(shard.speaker@) {
        Some(QuoteError::InvalidSpeaker)
    } else if shard.speaker@ == submitter {
        Some(QuoteError::SelfQuote)
    } else {
        None
    }
}

/// The fault of the first shard that has one.
pub open spec fn first_shard_fault(shards: Seq<NewQuoteShard>, submitter: Seq<char>) -> Option<
    QuoteError,
>
    decreases shards.len(),
{
    if shards.len() == 0 {
        None
    } else {
        match shard_fault(shards[0], submitter) {
            Some(fault) => Some(fault),
            None => first_shard_fault(shards.drop_first(), submitter),
        }
    }
}

/// What is wrong with a quote before anyone else is asked about it: the
/// number of its shards, then its shards in order, then the name of the
/// submitter.
pub open spec fn new_quote_fault(shards: Seq<NewQuoteShard>, submitter: Seq<char>) -> Option<
    QuoteError,
> {
    if shards.len() == 0 {
        Some(QuoteError::NoShards)
    } else if shards.len() > MAX_SHARDS {
        Some(QuoteError::TooManyShards)
    } else {
        match first_shard_fault(shards, submitter) {
            Some(fault) => Some(fault),
            None => if !valid_username(submitter) {
                Some(QuoteError::InvalidSubmitter)
            } else {
                None
            },
        }
    }
}

/// Checks a quote that `submitter` submits, as far as the quote itself
/// tells.
pub fn check_new_quote(quote: &NewQuote, submitter: &str) -> (r: Result<(), QuoteError>)
    ensures
        r == match new_quote_fault(quote.shards@, submitter@) {
            Some(fault) => Err::<(), QuoteError>(fault),
            None => Ok::<(), QuoteError>(()),
        },
{
    if quote.shards.len() == 0 {
        return Err(QuoteError::NoShards);
    }
    if quote.shards.len() > MAX_SHARDS {
        return Err(QuoteError::TooManyShards);
    }
    let name = String::from_str(submitter);
    let mut i: usize = 0;
    assert(quote.shards@.skip(0) == quote.shards@);
    while i < quote.shards.len()
        invariant
            i <= quote.shards.len(),
            0 < quote.shards@.len() <= MAX_SHARDS,
            name@ == submitter@,
            first_shard_fault(quote.shards@, submitter@) == first_shard_fault(
                quote.shards@.skip(i as int),
                submitter@,
            ),
        decreases quote.shards.len() - i,
    {
        let ghost rest = quote.shards@.skip(i as int);
        assert(rest[0] == quote.shards@[i as int]);
        assert(rest.drop_first() == quote.shards@.skip(i + 1));
        if !is_valid_username(quote.shards[i].speaker.as_str()) {
            return Err(QuoteError::InvalidSpeaker);
        }
        if quote.shards[i].speaker == name {
            return Err(QuoteError::SelfQuote);
        }
        i += 1;
    }
    if !is_valid_username(submitter) {
        return Err(QuoteError::InvalidSubmitter);
    }
    Ok(())
}

/// The places of the shards of a quote with `count` shards: 1, 2, and so on.
pub fn shard_indices(count: usize) -> (indices: Vec<i16>)
    requires
        count <= i16::MAX,
    ensures
        indices@.len() == count,
        forall|i: int| 0 <= i < count ==> indices@[i] == i + 1,
{
    let mut indices: Vec<i16> = Vec::new();
    let mut i: usize = 0;
    while i < count
        invariant
            i <= count <= i16::MAX,
            indices@.len() == i,
            forall|j: int| 0 <= j < i ==> indices@[j] == j + 1,
        decreases count - i,
    {
        i += 1;
        indices.push(i as i16);
    }
    indices
}

/// The speakers of a quote, in the order of its shards.
pub fn speakers(quote: &NewQuote) -> (names: Vec<String>)
    ensures
        names@.len() == quote.shards@.len(),
        forall|i: int| 0 <= i < names@.len() ==> (#[trigger] names@[i])@ == quote.shards@[i].speaker@,
{
    let mut names: Vec<String> = Vec::new();
    let mut i: usize = 0;
    while i < quote.shards.len()
        invariant
            i <= quote.shards.len(),
            names@.len() == i,
            forall|j: int| 0 <= j < i ==> (#[trigger] names@[j])@ == quote.shards@[j].speaker@,
        decreases quote.shards.len() - i,
    {
        names.push(quote.shards[i].speaker.clone());
        i += 1;
    }
    names
}

/// The reason that is recorded for hiding a quote: the one given, or a
/// standard one if none is given.
pub open spec fn recorded_reason(reason: Seq<char>) -> Seq<char> {
    if reason.len() == 0 {
        "No reason given"@
    } else {
        reason
    }
}

/// The reason that is recorded for hiding a quote.
pub fn hide_reason(reason: String) -> (recorded: String)
    ensures
        recorded@ == recorded_reason(reason@),
{
    if reason.as_str().is_empty() {
        String::from_str("No reason given")
    } else {
        reason
    }
}

/// A search for quotes, with every parameter settled. The texts are patterns
/// of the database, in which `%` stands for anything.
#[derive(Debug, Clone)]
pub struct QuoteFilter {
    /// The most quotes to return.
    pub limit: i64,
    /// Only quotes with a smaller key are returned; 0 for no bound.
    pub lt_qid: i32,
    pub query: String,
    pub speaker: String,
    pub submitter: String,
    pub involved: String,
    /// Whether hidden quotes are wanted; counts only with `filter_by_hidden`.
    pub hidden: bool,
    pub filter_by_hidden: bool,
    pub favorited: bool,
    /// Whether the quotes are ordered by their votes, not by their age.
    pub sort_by_votes: bool,
    pub sort_direction: bool,
}

/// The limit of a search: ten quotes if none is given, and no limit for -1.
pub open spec fn limit_of(limit: Option<i64>) -> i64 {
    match limit {
        None => 10,
        Some(given) => if given == -1 {
            i64::MAX
        } else {
            given
        },
    }
}

/// A pattern for the texts that hold `text`; every text, if none is given.
pub open spec fn containing(text: Option<String>) -> Seq<char> {
    match text {
        None => "%"@,
        Some(text) => "%"@ + text@ + "%"@,
    }
}

/// The pattern that is given, or the pattern for every text.
pub open spec fn pattern_or_any(pattern: Option<String>) -> Seq<char> {
    match pattern {
        None => "%"@,
        Some(pattern) => pattern@,
    }
}

/// What a filter must hold to be the one that `params` ask for.
pub open spec fn filter_of(params: FetchParams, filter: QuoteFilter) -> bool {
    &&& filter.limit == limit_of(params.limit)
    &&& filter.lt_qid == match params.lt {
        Some(bound) => bound,
        None => 0,
    }
    &&& filter.query@ == containing(params.q)
    &&& filter.speaker@ == pattern_or_any(params.speaker)
    &&& filter.submitter@ == pattern_or_any(params.submitter)
    &&& filter.involved@ == pattern_or_any(params.involved)
    &&& filter.hidden == (params.hidden == Some(true))
    &&& filter.filter_by_hidden == params.hidden is Some
    &&& filter.favorited == (params.favorited == Some(true))
    &&& filter.sort_by_votes == (params.sort matches Some(order) && order@ == "votes"@)
    &&& filter.sort_direction == (params.sort_direction == Some(true))
}

fn or_any(pattern: &Option<String>) -> (r: String)
    ensures
        r@ == pattern_or_any(*pattern),
{
    match pattern {
        None => String::from_str("%"),
        Some(pattern) => pattern.clone(),
    }
}

/// Settles the parameters of a search for quotes.
pub fn quote_filter(params: &FetchParams) -> (filter: QuoteFilter)
    ensures
        filter_of(*params, filter),
{
    let limit = match params.limit {
        None => 10,
        Some(given) => if given == -1 {
            i64::MAX
        } else {
            given
        },
    };
    let query = match &params.q {
        None => String::from_str("%"),
        Some(text) => String::from_str("%").concat(text.as_str()).concat("%"),
    };
    let sort_by_votes = match &params.sort {
        None => false,
        Some(order) => *order == String::from_str("votes"),
    };
    QuoteFilter {
        limit,
        lt_qid: match params.lt {
            Some(bound) => bound,
            None => 0,
        },
        query,
        speaker: or_any(&params.speaker),
        submitter: or_any(&params.submitter),
        involved: or_any(&params.involved),
        hidden: match params.hidden {
            Some(hidden) => hidden,
            None => false,
        },
        filter_by_hidden: params.hidden.is_some(),
        favorited: match params.favorited {
            Some(favorited) => favorited,
            None => false,
        },
        sort_by_votes,
        sort_direction: match params.sort_direction {
            Some(direction) => direction,
            None => false,
        },
    }
}

/// Whether the shard names the user: as the submitter of its quote, as its
/// speaker, or as the one who hid its quote.
pub open spec fn names_user(shard: QuoteShard, uid: Seq<char>) -> bool {
    ||| shard.submitter@ == uid
    ||| shard.speaker@ == uid
    ||| shard.hidden_actor is Some && shard.hidden_actor->0@ == uid
}

/// The users that the shards name.
pub open spec fn named_in(shards: Seq<QuoteShard>) -> Set<Seq<char>> {
    Set::new(
        |uid: Seq<char>| exists|i: int| 0 <= i < shards.len() && names_user(#[trigger] shards[i], uid),
    )
}

/// No name stands twice in `users`.
pub open spec fn distinct(users: Seq<String>) -> bool {
    forall|i: int, j: int| 0 <= i < j < users.len() ==> users[i]@ != users[j]@
}

/// Adds `uid` to `users` unless it is there.
fn note(users: &mut Vec<String>, uid: &String)
    requires
        distinct(old(users)@),
    ensures
        distinct(final(users)@),
        names(final(users)@) == names(old(users)@).insert(uid@),
{
    if !contains_name(users, uid) {
        users.push(uid.clone());
        assert(names(users@) =~= names(old(users)@).insert(uid@)) by {
            assert forall|name: Seq<char>| names(old(users)@).insert(uid@).contains(
                name,
            ) implies names(users@).contains(name) by {
                if name == uid@ {
                    assert(users@[users@.len() - 1]@ == name);
                } else {
                    let i = choose|i: int|
                        0 <= i < old(users)@.len() && (#[trigger] old(users)@[i])@ == name;
                    assert(users@[i]@ == name);
                }
            }
            assert forall|name: Seq<char>| names(users@).contains(name) implies names(
                old(users)@,
            ).insert(uid@).contains(name) by {
                let i = choose|i: int| 0 <= i < users@.len() && (#[trigger] users@[i])@ == name;
                if i < old(users)@.len() {
                    assert(old(users)@[i]@ == name);
                }
            }
        }
    } else {
        assert(names(users@) =~= names(old(users)@).insert(uid@));
    }
}

/// The users whose names have to be asked of the directory before the shards
/// can be shown: each user that the shards name, once.
pub fn quote_uids(shards: &[QuoteShard]) -> (uids: Vec<String>)
    ensures
        distinct(uids@),
        names(uids@) == named_in(shards@),
{
    let mut uids: Vec<String> = Vec::new();
    let mut i: usize = 0;
    assert(names(uids@) =~= named_in(shards@.take(0)));
    while i < shards.len()
        invariant
            i <= shards.len(),
            distinct(uids@),
            names(uids@) == named_in(shards@.take(i as int)),
        decreases shards.len() - i,
    {
        let shard = &shards[i];
        let ghost before = names(uids@);
        note(&mut uids, &shard.submitter);
        note(&mut uids, &shard.speaker);
        match &shard.hidden_actor {
            Some(actor) => {
                note(&mut uids, actor);
            },
            None => {},
        }
        proof {
            let done = shards@.take(i as int);
            let next = shards@.take(i + 1);
            assert forall|uid: Seq<char>| named_in(next).contains(uid) implies names(
                uids@,
            ).contains(uid) by {
                let k = choose|k: int| 0 <= k < next.len() && names_user(#[trigger] next[k], uid);
                if k < i {
                    assert(names_user(done[k], uid));
                }
            }
            assert forall|uid: Seq<char>| names(uids@).contains(uid) implies named_in(
                next,
            ).contains(uid) by {
                if before.contains(uid) {
                    let k = choose|k: int|
                        0 <= k < done.len() && names_user(#[trigger] done[k], uid);
                    assert(names_user(next[k], uid));
                } else {
                    assert(names_user(next[i as int], uid));
                }
            }
            assert(names(uids@) =~= named_in(next));
        }
        i += 1;
    }
    assert(shards@.take(shards@.len() as int) == shards@);
    uids
}

/// The users of a quote that `submitter` submits, each once: its speakers
/// and the submitter.
pub fn quoted_users(quote: &NewQuote, submitter: &str) -> (users: Vec<String>)
    ensures
        distinct(users@),
        forall|name: Seq<char>|
            names(users@).contains(name) <==> name == submitter@ || exists|i: int|
                0 <= i < quote.shards@.len() && (#[trigger] quote.shards@[i]).speaker@ == name,
{
    let mut users: Vec<String> = Vec::new();
    let mut i: usize = 0;
    while i < quote.shards.len()
        invariant
            i <= quote.shards.len(),
            distinct(users@),
            forall|name: Seq<char>|
                names(users@).contains(name) <==> exists|k: int|
                    0 <= k < i && (#[trigger] quote.shards@[k]).speaker@ == name,
        decreases quote.shards.len() - i,
    {
        let ghost before = names(users@);
        note(&mut users, &quote.shards[i].speaker);
        proof {
            assert forall|name: Seq<char>| names(users@).contains(name) implies exists|k: int|
                0 <= k < i + 1 && (#[trigger] quote.shards@[k]).speaker@ == name by {
                if before.contains(name) {
                    let k = choose|k: int|
                        0 <= k < i && (#[trigger] quote.shards@[k]).speaker@ == name;
                    assert(quote.shards@[k].speaker@ == name);
                } else {
                    assert(quote.shards@[i as int].speaker@ == name);
                }
            }
        }
        i += 1;
    }
    note(&mut users, &String::from_str(submitter));
    users
}

/// The common names that the directory gave, by user. Of two answers for one
/// user the later counts.
pub open spec fn common_names(found: Seq<UserResponse>) -> Map<Seq<char>, Seq<char>>
    decreases found.len(),
{
    if found.len() == 0 {
        Map::empty()
    } else {
        common_names(found.drop_last()).insert(found.last().uid@, found.last().cn@)
    }
}

/// The user `uid` with the common name, if the directory knows the user.
pub open spec fn resolved(names: Map<Seq<char>, Seq<char>>, uid: Seq<char>) -> Option<UserView> {
    if names.contains_key(uid) {
        Some(UserView { cn: names[uid], uid })
    } else {
        None
    }
}

/// Why and by whom the quote of a shard is hidden: known only if the shard
/// gives both and the directory knows who hid it.
pub open spec fn hidden_of(shard: QuoteShard, names: Map<Seq<char>, Seq<char>>) -> Option<
    HiddenView,
> {
    match (shard.hidden_actor, shard.hidden_reason) {
        (Some(actor), Some(reason)) => match resolved(names, actor@) {
            Some(actor) => Some(HiddenView { reason: reason@, actor }),
            None => None,
        },
        _ => None,
    }
}

/// The quotes after one more shard. A shard whose speaker the directory does
/// not know is left out. A shard with index 1 opens a quote, unless the
/// directory does not know the submitter; any other is added to the quote
/// that was opened last, if there is one.
pub open spec fn with_shard(
    quotes: Seq<QuoteView>,
    shard: QuoteShard,
    names: Map<Seq<char>, Seq<char>>,
) -> Seq<QuoteView> {
    match resolved(names, shard.speaker@) {
        None => quotes,
        Some(speaker) => {
            let piece = ShardView { body: shard.body@, speaker };
            if shard.index == 1 {
                match resolved(names, shard.submitter@) {
                    None => quotes,
                    Some(submitter) => quotes.push(
                        QuoteView {
                            submitter,
                            timestamp: shard.timestamp,
                            shards: seq![piece],
                            id: shard.id,
                            vote: shard.vote,
                            score: shard.score,
                            hidden: hidden_of(shard, names),
                            favorited: shard.favorited,
                        },
                    ),
                }
            } else if quotes.len() == 0 {
                quotes
            } else {
                quotes.drop_last().push(
                    QuoteView { shards: quotes.last().shards.push(piece), ..quotes.last() },
                )
            }
        },
    }
}

/// The quotes that the shards make up, in the order of the shards.
pub open spec fn quotes_of(shards: Seq<QuoteShard>, names: Map<Seq<char>, Seq<char>>) -> Seq<
    QuoteView,
>
    decreases shards.len(),
{
    if shards.len() == 0 {
        Seq::empty()
    } else {
        with_shard(quotes_of(shards.drop_last(), names), shards.last(), names)
    }
}

/// The views of a list of quotes.
pub open spec fn quote_views(quotes: Seq<QuoteResponse>) -> Seq<QuoteView> {
    quotes.map_values(|quote: QuoteResponse| quote@)
}

proof fn lemma_common_names(found: Seq<UserResponse>, uid: Seq<char>, i: int)
    requires
        0 <= i < found.len(),
        found[i].uid@ == uid,
        forall|j: int| i < j < found.len() ==> (#[trigger] found[j]).uid@ != uid,
    ensures
        common_names(found).contains_key(uid),
        common_names(found)[uid] == found[i].cn@,
    decreases found.len(),
{
    if i < found.len() - 1 {
        let front = found.drop_last();
        assert(found.last().uid@ != uid);
        assert forall|j: int| i < j < front.len() implies (#[trigger] front[j]).uid@ != uid by {
            assert(front[j] == found[j]);
        }
        lemma_common_names(front, uid, i);
    }
}

proof fn lemma_common_names_absent(found: Seq<UserResponse>, uid: Seq<char>)
    requires
        forall|j: int| 0 <= j < found.len() ==> (#[trigger] found[j]).uid@ != uid,
    ensures
        !common_names(found).contains_key(uid),
    decreases found.len(),
{
    if found.len() > 0 {
        let front = found.drop_last();
        assert(found.last().uid@ != uid);
        assert forall|j: int| 0 <= j < front.len() implies (#[trigger] front[j]).uid@ != uid by {
            assert(front[j] == found[j]);
        }
        lemma_common_names_absent(front, uid);
    }
}

/// Looks a user up in what the directory gave.
fn resolve(found: &[UserResponse], uid: &String) -> (r: Option<UserResponse>)
    ensures
        match r {
            Some(user) => resolved(common_names(found@), uid@) == Some(user@),
            None => resolved(common_names(found@), uid@) is None,
        },
{
    let mut i: usize = found.len();
    while i > 0
        invariant
            i <= found.len(),
            forall|j: int| i <= j < found.len() ==> (#[trigger] found@[j]).uid@ != uid@,
        decreases i,
    {
        i -= 1;
        if found[i].uid == *uid {
            proof {
                lemma_common_names(found@, uid@, i as int);
            }
            return Some(UserResponse { cn: found[i].cn.clone(), uid: uid.clone() });
        }
    }
    proof {
        lemma_common_names_absent(found@, uid@);
    }
    None
}

fn hidden(shard: &QuoteShard, found: &[UserResponse]) -> (r: Option<Hidden>)
    ensures
        match r {
            Some(hidden) => hidden_of(*shard, common_names(found@)) == Some(hidden@),
            None => hidden_of(*shard, common_names(found@)) is None,
        },
{
    match (&shard.hidden_actor, &shard.hidden_reason) {
        (Some(actor), Some(reason)) => match resolve(found, actor) {
            Some(actor) => Some(Hidden { reason: reason.clone(), actor }),
            None => None,
        },
        _ => None,
    }
}

/// Puts the shards together to the quotes that are shown, with the names
/// that the directory gave for their users.
pub fn shards_to_quotes(shards: &[QuoteShard], found: &[UserResponse]) -> (quotes: Vec<
    QuoteResponse,
>)
    ensures
        quote_views(quotes@) == quotes_of(shards@, common_names(found@)),
{
    let ghost names = common_names(found@);
    let mut quotes: Vec<QuoteResponse> = Vec::new();
    let mut i: usize = 0;
    assert(quote_views(quotes@) =~= quotes_of(shards@.take(0), names));
    while i < shards.len()
        invariant
            i <= shards.len(),
            names == common_names(found@),
            quote_views(quotes@) == quotes_of(shards@.take(i as int), names),
        decreases shards.len() - i,
    {
        let shard = &shards[i];
        let ghost before = quote_views(quotes@);
        proof {
            let next = shards@.take(i + 1);
            assert(next.drop_last() == shards@.take(i as int));
            assert(next.last() == shards@[i as int]);
        }
        let speaker = resolve(found, &shard.speaker);
        match speaker {
            None => {},
            Some(speaker) => {
                let piece = QuoteShardResponse { body: shard.body.clone(), speaker };
                if shard.index == 1 {
                    match resolve(found, &shard.submitter) {
                        None => {},
                        Some(submitter) => {
                            let mut pieces: Vec<QuoteShardResponse> = Vec::new();
                            pieces.push(piece);
                            let quote = QuoteResponse {
                                submitter,
                                timestamp: shard.timestamp,
                                shards: pieces,
                                id: shard.id,
                                vote: shard.vote,
                                score: shard.score,
                                hidden: hidden(shard, found),
                                favorited: shard.favorited,
                            };
                            assert(quote@.shards =~= seq![piece@]);
                            quotes.push(quote);
                            assert(quote_views(quotes@) =~= before.push(quote@));
                        },
                    }
                } else {
                    match quotes.pop() {
                        None => {},
                        Some(last) => {
                            let mut last = last;
                            let ghost open = last@;
                            last.shards.push(piece);
                            assert(last@.shards =~= open.shards.push(piece@));
                            quotes.push(last);
                            assert(quote_views(quotes@) =~= before.drop_last().push(last@));
                        },
                    }
                }
            },
        }
        i += 1;
    }
    assert(shards@.take(shards@.len() as int) == shards@);
    quotes
}

/// The report that a row holds.
pub open spec fn report_of(row: ReportedQuoteShard) -> ReportView {
    ReportView { reason: row.report_reason@, timestamp: row.report_timestamp, id: row.report_id }
}

/// The place of the reports on the quote `quote_id` in `groups`, or the
/// length of `groups` if it holds none.
pub open spec fn group_of(groups: Seq<ReportedQuoteView>, quote_id: i32) -> int
    decreases groups.len(),
{
    if groups.len() == 0 || groups[0].quote_id == quote_id {
        0
    } else {
        1 + group_of(groups.drop_first(), quote_id)
    }
}

/// The reports after one more row: its report joins those on the same quote,
/// or, if it is the first on its quote, it is added at the end.
pub open spec fn with_report(groups: Seq<ReportedQuoteView>, row: ReportedQuoteShard) -> Seq<
    ReportedQuoteView,
> {
    let at = group_of(groups, row.quote_id);
    if at < groups.len() {
        groups.update(
            at,
            ReportedQuoteView {
                quote_id: row.quote_id,
                reports: groups[at].reports.push(report_of(row)),
            },
        )
    } else {
        groups.push(ReportedQuoteView { quote_id: row.quote_id, reports: seq![report_of(row)] })
    }
}

/// The reports of the rows by quote: the quotes in the order in which they
/// first occur, the reports on each in the order of the rows.
pub open spec fn reports_of(rows: Seq<ReportedQuoteShard>) -> Seq<ReportedQuoteView>
    decreases rows.len(),
{
    if rows.len() == 0 {
        Seq::empty()
    } else {
        with_report(reports_of(rows.drop_last()), rows.last())
    }
}

/// The views of a list of reported quotes.
pub open spec fn reported_views(groups: Seq<ReportedQuoteResponse>) -> Seq<ReportedQuoteView> {
    groups.map_values(|group: ReportedQuoteResponse| group@)
}

proof fn lemma_group_of(groups: Seq<ReportedQuoteView>, quote_id: i32, at: int)
    requires
        0 <= at <= groups.len(),
        forall|j: int| 0 <= j < at ==> (#[trigger] groups[j]).quote_id != quote_id,
        at < groups.len() ==> groups[at].quote_id == quote_id,
    ensures
        group_of(groups, quote_id) == at,
    decreases groups.len(),
{
    if at > 0 {
        let rest = groups.drop_first();
        assert(groups[0].quote_id != quote_id);
        assert forall|j: int| 0 <= j < at - 1 implies (#[trigger] rest[j]).quote_id
            != quote_id by {
            assert(rest[j] == groups[j + 1]);
        }
        lemma_group_of(rest, quote_id, at - 1);
    }
}

/// `group_of` is the place of the first group for the quote, and the length
/// of `groups` only if there is none.
pub proof fn lemma_group_of_first(groups: Seq<ReportedQuoteView>, quote_id: i32)
    ensures
        0 <= group_of(groups, quote_id) <= groups.len(),
        forall|j: int|
            0 <= j < group_of(groups, quote_id) ==> (#[trigger] groups[j]).quote_id != quote_id,
        group_of(groups, quote_id) < groups.len() ==> groups[group_of(
            groups,
            quote_id,
        )].quote_id == quote_id,
    decreases groups.len(),
{
    if groups.len() == 0 || groups[0].quote_id == quote_id {
    } else {
        let rest = groups.drop_first();
        lemma_group_of_first(rest, quote_id);
        assert forall|j: int| 0 <= j < group_of(groups, quote_id) implies (
        #[trigger] groups[j]).quote_id != quote_id by {
            if j > 0 {
                assert(groups[j] == rest[j - 1]);
            }
        }
        assert(group_of(groups, quote_id) < groups.len() ==> groups[group_of(groups, quote_id)]
            == rest[group_of(rest, quote_id)]);
    }
}

/// No quote has two groups, and no group is empty.
pub open spec fn grouped(groups: Seq<ReportedQuoteView>) -> bool {
    &&& forall|i: int, j: int|
        0 <= i < j < groups.len() ==> groups[i].quote_id != groups[j].quote_id
    &&& forall|i: int| 0 <= i < groups.len() ==> (#[trigger] groups[i]).reports.len() > 0
}

/// The number of the reports in all groups.
pub open spec fn report_count(groups: Seq<ReportedQuoteView>) -> nat
    decreases groups.len(),
{
    if groups.len() == 0 {
        0
    } else {
        report_count(groups.drop_last()) + groups.last().reports.len()
    }
}

proof fn lemma_report_count_update(groups: Seq<ReportedQuoteView>, at: int, group: ReportedQuoteView)
    requires
        0 <= at < groups.len(),
        group.reports.len() == groups[at].reports.len() + 1,
    ensures
        report_count(groups.update(at, group)) == report_count(groups) + 1,
    decreases groups.len(),
{
    let updated = groups.update(at, group);
    if at == groups.len() - 1 {
        assert(updated.drop_last() == groups.drop_last());
    } else {
        assert(updated.drop_last() == groups.drop_last().update(at, group));
        lemma_report_count_update(groups.drop_last(), at, group);
    }
}

/// Each row's report is in the group of its quote, once: the quotes have one
/// group each, no group is empty, and the groups hold as many reports as
/// there are rows.
pub proof fn lemma_reports_grouped(rows: Seq<ReportedQuoteShard>)
    ensures
        grouped(reports_of(rows)),
        report_count(reports_of(rows)) == rows.len(),
    decreases rows.len(),
{
    if rows.len() > 0 {
        let before = reports_of(rows.drop_last());
        let row = rows.last();
        lemma_reports_grouped(rows.drop_last());
        lemma_group_of_first(before, row.quote_id);
        let at = group_of(before, row.quote_id);
        let after = reports_of(rows);
        if at < before.len() {
            lemma_report_count_update(before, at, after[at]);
            assert forall|i: int, j: int| 0 <= i < j < after.len() implies after[i].quote_id
                != after[j].quote_id by {
                assert(after[i].quote_id == before[i].quote_id);
                assert(after[j].quote_id == before[j].quote_id);
            }
        } else {
            assert(after.drop_last() == before);
            assert forall|i: int, j: int| 0 <= i < j < after.len() implies after[i].quote_id
                != after[j].quote_id by {
                if j < before.len() {
                    assert(after[i] == before[i] && after[j] == before[j]);
                } else {
                    assert(after[i] == before[i]);
                }
            }
        }
    }
}

/// Groups the open reports by the quote that they are about.
pub fn format_reports(quotes: &[ReportedQuoteShard]) -> (groups: Vec<ReportedQuoteResponse>)
    ensures
        reported_views(groups@) == reports_of(quotes@),
        grouped(reported_views(groups@)),
        report_count(reported_views(groups@)) == quotes@.len(),
{
    proof {
        lemma_reports_grouped(quotes@);
    }
    let mut groups: Vec<ReportedQuoteResponse> = Vec::new();
    let mut i: usize = 0;
    assert(reported_views(groups@) =~= reports_of(quotes@.take(0)));
    while i < quotes.len()
        invariant
            i <= quotes.len(),
            reported_views(groups@) == reports_of(quotes@.take(i as int)),
        decreases quotes.len() - i,
    {
        let row = &quotes[i];
        let ghost before = reported_views(groups@);
        proof {
            let next = quotes@.take(i + 1);
            assert(next.drop_last() == quotes@.take(i as int));
            assert(next.last() == quotes@[i as int]);
        }
        let report = ReportResponse {
            reason: row.report_reason.clone(),
            timestamp: row.report_timestamp,
            id: row.report_id,
        };
        let mut at: usize = 0;
        while at < groups.len() && groups[at].quote_id != row.quote_id
            invariant
                at <= groups.len(),
                before == reported_views(groups@),
                forall|j: int| 0 <= j < at ==> (#[trigger] before[j]).quote_id != row.quote_id,
            decreases groups.len() - at,
        {
            assert(before[at as int] == groups@[at as int]@);
            at += 1;
        }
        proof {
            if at < groups.len() {
                assert(before[at as int] == groups@[at as int]@);
            }
            lemma_group_of(before, row.quote_id, at as int);
        }
        if at < groups.len() {
            let mut group = groups.remove(at);
            let ghost open = group@;
            group.reports.push(report);
            assert(group@.reports =~= open.reports.push(report@));
            groups.insert(at, group);
            assert(reported_views(groups@) =~= with_report(before, *row));
        } else {
            let mut reports: Vec<ReportResponse> = Vec::new();
            reports.push(report);
            let group = ReportedQuoteResponse { quote_id: row.quote_id, reports };
            assert(group@.reports =~= seq![report@]);
            groups.push(group);
            assert(reported_views(groups@) =~= with_report(before, *row));
        }
        i += 1;
    }
    assert(quotes@.take(quotes@.len() as int) == quotes@);
    groups
}

/// Those of `members` who are in `listed`, in their order.
pub open spec fn listed_members(members: Seq<UserResponse>, listed: Set<Seq<char>>) -> Seq<
    UserView,
>
    decreases members.len(),
{
    if members.len() == 0 {
        Seq::empty()
    } else if listed.contains(members.last().uid@) {
        listed_members(members.drop_last(), listed).push(members.last()@)
    } else {
        listed_members(members.drop_last(), listed)
    }
}

/// The views of a list of users.
pub open spec fn user_views(users: Seq<UserResponse>) -> Seq<UserView> {
    users.map_values(|user: UserResponse| user@)
}

/// Of the members that the directory gave, those who are in the snapshot of
/// the blocklist.
pub fn kevlar_members(members: Vec<UserResponse>, kevlar: &Vec<String>) -> (kept: Vec<
    UserResponse,
>)
    ensures
        user_views(kept@) == listed_members(members@, names(kevlar@)),
{
    let mut kept: Vec<UserResponse> = Vec::new();
    let mut i: usize = 0;
    assert(user_views(kept@) =~= listed_members(members@.take(0), names(kevlar@)));
    while i < members.len()
        invariant
            i <= members.len(),
            user_views(kept@) == listed_members(members@.take(i as int), names(kevlar@)),
        decreases members.len() - i,
    {
        let ghost before = user_views(kept@);
        proof {
            let next = members@.take(i + 1);
            assert(next.drop_last() == members@.take(i as int));
            assert(next.last() == members@[i as int]);
        }
        if contains_name(kevlar, &members[i].uid) {
            let member = UserResponse { cn: members[i].cn.clone(), uid: members[i].uid.clone() };
            kept.push(member);
            assert(user_views(kept@) =~= before.push(member@));
        }
        i += 1;
    }
    assert(members@.take(members@.len() as int) == members@);
    kept
}

/// What is appended to the name of a user before it is hashed for a report.
pub open spec fn report_salt() -> Seq<char> {
    "coleandethanwerehere"@
}

/// The SHA3-256 digest of `data`.
pub uninterp spec fn sha3_256_digest(data: Seq<u8>) -> Seq<u8>;

/// Calls `Digest::digest` of the `sha3` crate for `Sha3_256`. The contract
/// names the digest of these bytes and says that it has 32 bytes, the
/// output size that the crate declares for `Sha3_256`.
#[verifier::external_body]
fn sha3_256(data: &[u8]) -> (digest: Vec<u8>)
    ensures
        digest@ == sha3_256_digest(data@),
        digest@.len() == 32,
{
    sha3::Sha3_256::digest(data).to_vec()
}

/// The mark under which a report of `username` is stored: it tells two
/// reports of one user apart from those of two users, and does not show the
/// name.
pub fn report_submitter_hash(username: &str) -> (hash: Vec<u8>)
    ensures
        hash@ == sha3_256_digest(encode_utf8(username@) + encode_utf8(report_salt())),
        hash@.len() == 32,
{
    let mut salted = slice_to_vec(username.as_bytes());
    salted.extend_from_slice("coleandethanwerehere".as_bytes());
    assert(salted@ =~= encode_utf8(username@) + encode_utf8(report_salt()));
    sha3_256(salted.as_slice())
}

} // verus!
