pub mod kevlar;
pub mod keys;
pub mod token;
pub mod verify;

use crate::auth::kevlar::{filled, names, user_has_kevlar, KevlarCache, StorageError};
use crate::auth::keys::{refreshed, update_cache, CertKey, FetchError, KeyCache, RsaKeyView};
use crate::auth::token::{
    bearer_token, get_token_pieces, segments_of, split_segments, strip_bearer, well_framed,
    TokenPieces, TokenSegments,
};
use crate::auth::verify::{
    signature_verdict, token_verdict, verify_signature, verify_token, Verification,
};
use vstd::prelude::*;
use vstd::string::StringExecFns;
use vstd::string::StringSliceAdditionalSpecFns;

verus! {

/// Header of a compact signed token: the signing algorithm, the identifier of
/// the signing key and the token type.
#[derive(Debug, Clone)]
pub struct TokenHeader {
    pub alg: String,
    pub kid: String,
    pub typ: String,
}

/// Claims of a token: the identity that the provider vouches for.
#[derive(Debug, Clone)]
pub struct User {
    pub exp: u32,
    pub iat: u32,
    pub auth_time: Option<u32>,
    pub jti: String,
    pub iss: String,
    pub aud: String,
    pub sub: String,
    pub typ: String,
    pub azp: String,
    pub nonce: Option<String>,
    pub session_state: Option<String>,
    pub scope: String,
    pub sid: Option<String>,
    pub email_verified: bool,
    pub name: Option<String>,
    pub groups: Vec<String>,
    pub preferred_username: String,
    pub given_name: Option<String>,
    pub family_name: Option<String>,
    pub email: Option<String>,
}

/// Why a request is refused. The reasons are kept apart for the server's own
/// records; what the caller is told is only [`Denial::rejection`].
#[derive(Debug, Clone, Copy, PartialEq, Eq, Structural)]
pub enum Denial {
    /// The request carries no token.
    NoToken,
    /// The token cannot be decoded.
    MalformedToken,
    /// The token has expired.
    Expired,
    /// The token is not signed with the one algorithm that is accepted.
    UnsupportedAlgorithm,
    /// The key set could not be refreshed.
    KeyFetchFailed,
    /// The provider publishes no key for the token.
    UnknownKey,
    /// The signature is not one of the signed segments under the key.
    BadSignature,
    /// The user is on the blocklist.
    Blocked,
    /// The user lacks the role that the route asks for.
    MissingRole,
    /// The blocklist could not be loaded.
    StorageFailed,
}

/// The two answers that a refused request can get.
#[derive(Debug, Clone, Copy, PartialEq, Eq, Structural)]
pub enum Rejection {
    Unauthenticated,
    InternalError,
}

impl Denial {
    /// What the caller is told: that the blocklist could not be loaded is an
    /// internal error, every other reason reads as a request that is not
    /// authenticated.
    pub open spec fn outward(self) -> Rejection {
        if self == Denial::StorageFailed {
            Rejection::InternalError
        } else {
            Rejection::Unauthenticated
        }
    }

    /// What the caller is told of this denial.
    pub fn rejection(&self) -> (r: Rejection)
        ensures
            r == self.outward(),
            *self != Denial::StorageFailed ==> r == Rejection::Unauthenticated,
    {
        match self {
            Denial::StorageFailed => Rejection::InternalError,
            _ => Rejection::Unauthenticated,
        }
    }
}

/// Whether `group` is one of `groups`.
pub open spec fn in_groups(groups: Seq<String>, group: Seq<char>) -> bool {
    exists|i: int| 0 <= i < groups.len() && (#[trigger] groups[i])@ == group
}

fn has_group(groups: &Vec<String>, group: &str) -> (r: bool)
    ensures
        r == in_groups(groups@, group@),
{
    let wanted = String::from_str(group);
    let mut i: usize = 0;
    while i < groups.len()
        invariant
            i <= groups.len(),
            wanted@ == group@,
            forall|j: int| 0 <= j < i ==> (#[trigger] groups@[j])@ != group@,
        decreases groups.len() - i,
    {
        if groups[i] == wanted {
            return true;
        }
        i += 1;
    }
    false
}

impl User {
    /// Members of the officer group and of the technical staff are
    /// administrators.
    pub open spec fn is_admin(&self) -> bool {
        in_groups(self.groups@, "eboard"@) || in_groups(self.groups@, "rtp"@)
    }

    /// Members of the officer group are officers.
    pub open spec fn is_eboard(&self) -> bool {
        in_groups(self.groups@, "eboard"@)
    }

    /// Whether the user is an administrator.
    pub fn admin(&self) -> (r: bool)
        ensures
            r == self.is_admin(),
    {
        has_group(&self.groups, "eboard") || has_group(&self.groups, "rtp")
    }

    /// Whether the user is an officer.
    pub fn eboard(&self) -> (r: bool)
        ensures
            r == self.is_eboard(),
    {
        has_group(&self.groups, "eboard")
    }
}

/// What is asked of a request.
#[derive(Debug, Clone, Copy, PartialEq, Eq, Structural)]
pub struct Checks {
    /// The request is refused if it fails. Where this is not asked, a request
    /// that fails is let through without claims.
    pub required: bool,
    /// The user must not be on the blocklist.
    pub kevlar: bool,
    /// The user must be an administrator.
    pub admin: bool,
    /// The user must be an officer.
    pub eboard: bool,
}

/// Where the authorization of a request stands: done, or waiting for
/// something that only the caller can bring. The caller brings it and hands
/// it, with what the step holds, to the function that the step names.
#[derive(Debug)]
pub enum GateStep {
    /// The request is let through, with the verified claims where a token was
    /// asked for, or refused.
    Done(Result<Option<User>, Denial>),
    /// The header and the claims have to be read from the decoded segments:
    /// see [`claims_read`].
    ReadClaims(Checks, TokenSegments),
    /// The key that signed the token is not cached, and the key set has to be
    /// fetched from the identity provider: see [`keys_fetched`].
    FetchKeys(Checks, TokenPieces),
    /// The blocklist has to be loaded from its system of record: see
    /// [`kevlar_loaded`].
    LoadKevlar(Checks, User),
}

impl GateStep {
    /// How many answers of the caller the authorization can still need:
    /// every step is followed by one that needs fewer, so that each request
    /// is done with after three answers at most.
    pub open spec fn answers_left(self) -> nat {
        match self {
            GateStep::ReadClaims(_, _) => 3,
            GateStep::FetchKeys(_, _) => 2,
            GateStep::LoadKevlar(_, _) => 1,
            GateStep::Done(_) => 0,
        }
    }
}

/// The roles that a route asks for.
pub open spec fn role_verdict(checks: Checks, user: User) -> Result<Option<User>, Denial> {
    if checks.admin && !user.is_admin() {
        Err(Denial::MissingRole)
    } else if checks.eboard && !user.is_eboard() {
        Err(Denial::MissingRole)
    } else {
        Ok(Some(user))
    }
}

/// A blocked user is refused; any other has to have the roles.
pub open spec fn kevlar_verdict(checks: Checks, user: User, blocked: Set<Seq<char>>) -> Result<
    Option<User>,
    Denial,
> {
    if blocked.contains(user.preferred_username@) {
        Err(Denial::Blocked)
    } else {
        role_verdict(checks, user)
    }
}

/// What follows the verification of a token: the blocklist, where the route
/// asks for it, then the roles. A blocklist that is not loaded has to be
/// loaded first.
pub open spec fn after_verified(
    checks: Checks,
    user: User,
    kevlar: Option<Set<Seq<char>>>,
) -> GateStep {
    if !checks.kevlar {
        GateStep::Done(role_verdict(checks, user))
    } else {
        match kevlar {
            Some(blocked) => GateStep::Done(kevlar_verdict(checks, user, blocked)),
            None => GateStep::LoadKevlar(checks, user),
        }
    }
}

/// What follows the decoding of a token: its verification with the cached
/// keys, and a refresh of the keys if the one that it names is missing.
pub open spec fn after_decoded(
    checks: Checks,
    pieces: TokenPieces,
    now: int,
    keys: Map<Seq<char>, RsaKeyView>,
    kevlar: Option<Set<Seq<char>>>,
) -> GateStep {
    match token_verdict(
        pieces.header,
        pieces.header_64@,
        pieces.claims,
        pieces.payload_64@,
        pieces.signature@,
        now,
        keys,
    ) {
        Verification::Verified => after_verified(checks, pieces.claims, kevlar),
        Verification::Denied(denial) => GateStep::Done(Err(denial)),
        Verification::KeyMissing => GateStep::FetchKeys(checks, pieces),
    }
}

/// What follows the one refresh of the keys: a key that is still missing is
/// unknown, and the token is refused.
pub open spec fn after_refresh(
    checks: Checks,
    pieces: TokenPieces,
    keys: Map<Seq<char>, RsaKeyView>,
    kevlar: Option<Set<Seq<char>>>,
) -> GateStep {
    match signature_verdict(
        pieces.header,
        pieces.header_64@,
        pieces.payload_64@,
        pieces.signature@,
        keys,
    ) {
        Verification::Verified => after_verified(checks, pieces.claims, kevlar),
        Verification::Denied(denial) => GateStep::Done(Err(denial)),
        Verification::KeyMissing => GateStep::Done(Err(Denial::UnknownKey)),
    }
}

/// The pieces of a token whose segments are `segments` and whose header and
/// claims were read as `header` and `claims`.
pub open spec fn pieces_of(segments: TokenSegments, header: TokenHeader, claims: User) -> TokenPieces {
    TokenPieces {
        header,
        header_64: segments.header_64,
        claims,
        payload_64: segments.payload_64,
        signature: segments.signature,
    }
}

/// The keys after the answer `fetched` of the identity provider: a refresh
/// that fails leaves them as they were.
pub open spec fn keys_after(
    keys: Map<Seq<char>, RsaKeyView>,
    fetched: Result<Vec<CertKey>, FetchError>,
) -> Map<Seq<char>, RsaKeyView> {
    match fetched {
        Ok(published) => match refreshed(keys, published@) {
            Some(updated) => updated,
            None => keys,
        },
        Err(_) => keys,
    }
}

/// Whether the answer `fetched` brought the keys up to date.
pub open spec fn refresh_succeeds(
    keys: Map<Seq<char>, RsaKeyView>,
    fetched: Result<Vec<CertKey>, FetchError>,
) -> bool {
    fetched matches Ok(published) && refreshed(keys, published@) is Some
}

/// Where a step gets a request to: a refusal stands only where the checks
/// are required, and lets the request through without claims where they are
/// not.
pub open spec fn settled(checks: Checks, step: GateStep) -> GateStep {
    match step {
        GateStep::Done(Err(denial)) => if checks.required {
            step
        } else {
            GateStep::Done(Ok(None))
        },
        _ => step,
    }
}

fn settle(checks: Checks, step: GateStep) -> (r: GateStep)
    ensures
        r == settled(checks, step),
{
    match step {
        GateStep::Done(Err(denial)) => if checks.required {
            GateStep::Done(Err(denial))
        } else {
            GateStep::Done(Ok(None))
        },
        step => step,
    }
}

fn check_roles(checks: Checks, user: User) -> (r: Result<Option<User>, Denial>)
    ensures
        r == role_verdict(checks, user),
{
    if checks.admin && !user.admin() {
        Err(Denial::MissingRole)
    } else if checks.eboard && !user.eboard() {
        Err(Denial::MissingRole)
    } else {
        Ok(Some(user))
    }
}

fn check_verified(checks: Checks, user: User, kevlar: &KevlarCache) -> (r: GateStep)
    ensures
        r == after_verified(checks, user, kevlar@),
{
    if !checks.kevlar {
        return GateStep::Done(check_roles(checks, user));
    }
    match user_has_kevlar(kevlar, user.preferred_username.as_str()) {
        None => GateStep::LoadKevlar(checks, user),
        Some(true) => GateStep::Done(Err(Denial::Blocked)),
        Some(false) => GateStep::Done(check_roles(checks, user)),
    }
}

/// What the first step must be for a request with this authorization
/// header: a request without one, or with a token that cannot be taken
/// apart, is done with; of any other the claims are to be read.
pub open spec fn begins(checks: Checks, authorization: Option<&str>, step: GateStep) -> bool {
    match authorization {
        None => step == settled(checks, GateStep::Done(Err(Denial::NoToken))),
        Some(value) => if well_framed(bearer_token(value.spec_bytes())) {
            step matches GateStep::ReadClaims(passed, segments) && passed == checks && segments_of(
                bearer_token(value.spec_bytes()),
                segments,
            )
        } else {
            step == settled(checks, GateStep::Done(Err(Denial::MalformedToken)))
        },
    }
}

/// Starts the authorization of a request from the value of its
/// authorization header: the token is taken from the value, split at its
/// separators, and its segments are decoded.
pub fn begin(checks: Checks, authorization: Option<&str>) -> (r: GateStep)
    ensures
        begins(checks, authorization, r),
        !checks.required ==> !(r matches GateStep::Done(Err(_))),
{
    match authorization {
        None => settle(checks, GateStep::Done(Err(Denial::NoToken))),
        Some(value) => match split_segments(strip_bearer(value.as_bytes())) {
            Ok(segments) => GateStep::ReadClaims(checks, segments),
            Err(_) => settle(checks, GateStep::Done(Err(Denial::MalformedToken))),
        },
    }
}

/// Goes on when the header and the claims have been read from the decoded
/// segments: `None` for one that does not have the expected shape. The token
/// is verified at the time `now`, in seconds since the epoch.
pub fn claims_read(
    checks: Checks,
    segments: TokenSegments,
    header: Option<TokenHeader>,
    claims: Option<User>,
    now: i64,
    keys: &KeyCache,
    kevlar: &KevlarCache,
) -> (r: GateStep)
    ensures
        r == settled(
            checks,
            match (header, claims) {
                (Some(header), Some(claims)) => after_decoded(
                    checks,
                    pieces_of(segments, header, claims),
                    now as int,
                    keys@,
                    kevlar@,
                ),
                _ => GateStep::Done(Err(Denial::MalformedToken)),
            },
        ),
        !checks.required ==> !(r matches GateStep::Done(Err(_))),
        r.answers_left() < 3,
{
    let pieces = match get_token_pieces(segments, header, claims) {
        Ok(pieces) => pieces,
        Err(_) => {
            return settle(checks, GateStep::Done(Err(Denial::MalformedToken)));
        },
    };
    let step = match verify_token(
        &pieces.header,
        pieces.header_64.as_slice(),
        &pieces.claims,
        pieces.payload_64.as_slice(),
        pieces.signature.as_slice(),
        now,
        keys,
    ) {
        Verification::Verified => check_verified(checks, pieces.claims, kevlar),
        Verification::Denied(denial) => GateStep::Done(Err(denial)),
        Verification::KeyMissing => GateStep::FetchKeys(checks, pieces),
    };
    settle(checks, step)
}

/// Goes on when the key set has been asked of the identity provider. The
/// cache takes the keys that are new to it; the token is then checked with
/// what the cache holds, and no second fetch is asked for.
pub fn keys_fetched(
    checks: Checks,
    pieces: TokenPieces,
    fetched: Result<Vec<CertKey>, FetchError>,
    keys: &mut KeyCache,
    kevlar: &KevlarCache,
) -> (r: GateStep)
    ensures
        final(keys)@ == keys_after(old(keys)@, fetched),
        r == settled(
            checks,
            if refresh_succeeds(old(keys)@, fetched) {
                after_refresh(checks, pieces, final(keys)@, kevlar@)
            } else {
                GateStep::Done(Err(Denial::KeyFetchFailed))
            },
        ),
        !checks.required ==> !(r matches GateStep::Done(Err(_))),
        r.answers_left() < 2,
{
    let published = match fetched {
        Ok(published) => published,
        Err(_) => {
            return settle(checks, GateStep::Done(Err(Denial::KeyFetchFailed)));
        },
    };
    match update_cache(keys, &published) {
        Ok(()) => {},
        Err(_) => {
            return settle(checks, GateStep::Done(Err(Denial::KeyFetchFailed)));
        },
    }
    let step = match verify_signature(
        &pieces.header,
        pieces.header_64.as_slice(),
        pieces.payload_64.as_slice(),
        pieces.signature.as_slice(),
        keys,
    ) {
        Verification::Verified => check_verified(checks, pieces.claims, kevlar),
        Verification::Denied(denial) => GateStep::Done(Err(denial)),
        Verification::KeyMissing => GateStep::Done(Err(Denial::UnknownKey)),
    };
    settle(checks, step)
}

/// Goes on when the blocklist has been asked of its system of record. The
/// cache takes the snapshot, unless it was loaded in the meantime, and the
/// user is looked up in what the cache holds.
pub fn kevlar_loaded(
    checks: Checks,
    user: User,
    loaded: Result<Vec<String>, StorageError>,
    kevlar: &mut KevlarCache,
) -> (r: GateStep)
    ensures
        match loaded {
            Ok(users) => final(kevlar)@ == filled(old(kevlar)@, names(users@)) && r == settled(
                checks,
                GateStep::Done(kevlar_verdict(checks, user, final(kevlar)@->0)),
            ),
            Err(_) => final(kevlar)@ == old(kevlar)@ && r == settled(
                checks,
                GateStep::Done(Err(Denial::StorageFailed)),
            ),
        },
        !checks.required ==> !(r matches GateStep::Done(Err(_))),
        r.answers_left() == 0,
{
    match loaded {
        Err(_) => settle(checks, GateStep::Done(Err(Denial::StorageFailed))),
        Ok(users) => {
            kevlar.fill(users);
            let step = match user_has_kevlar(kevlar, user.preferred_username.as_str()) {
                Some(false) => GateStep::Done(check_roles(checks, user)),
                _ => GateStep::Done(Err(Denial::Blocked)),
            };
            settle(checks, step)
        },
    }
}

impl User {
    /// Starts the authorization of a request for the claims of its token
    /// alone: the token has to be there and to verify, and nothing more is
    /// asked of the user.
    pub fn from_request(authorization: Option<&str>) -> (r: GateStep)
        ensures
            begins(
                Checks { required: true, kevlar: false, admin: false, eboard: false },
                authorization,
                r,
            ),
    {
        begin(Checks { required: true, kevlar: false, admin: false, eboard: false }, authorization)
    }
}

/// How a route is guarded. An enabled route asks for a verified token of a
/// user who is not blocked, and for the role that it names. A route that is
/// not enabled lets every request through; if it works with claims, it is a
/// guarded route with security switched off, and still hands on the claims
/// of a request whose token verifies.
#[derive(Debug, Clone, Copy, PartialEq, Eq, Structural)]
pub struct CSHAuth {
    pub enabled: bool,
    pub admin: bool,
    pub eboard: bool,
    pub claims: bool,
}

impl CSHAuth {
    /// A route for administrators. Where security is switched off for the
    /// whole process, the route is not guarded.
    pub fn admin_only(security_enabled: bool) -> (r: CSHAuth)
        ensures
            r == (CSHAuth { enabled: security_enabled, admin: true, eboard: false, claims: true }),
    {
        CSHAuth { enabled: security_enabled, admin: true, eboard: false, claims: true }
    }

    /// A route for officers.
    pub fn eboard_only(security_enabled: bool) -> (r: CSHAuth)
        ensures
            r == (CSHAuth { enabled: security_enabled, admin: false, eboard: true, claims: true }),
    {
        CSHAuth { enabled: security_enabled, admin: false, eboard: true, claims: true }
    }

    /// A route for every authenticated user.
    pub fn enabled(security_enabled: bool) -> (r: CSHAuth)
        ensures
            r == (CSHAuth { enabled: security_enabled, admin: false, eboard: false, claims: true }),
    {
        CSHAuth { enabled: security_enabled, admin: false, eboard: false, claims: true }
    }

    /// A route that is open to everyone, and asks for no claims.
    pub fn disabled() -> (r: CSHAuth)
        ensures
            r == (CSHAuth { enabled: false, admin: false, eboard: false, claims: false }),
    {
        CSHAuth { enabled: false, admin: false, eboard: false, claims: false }
    }

    /// The guard of a route that is set up in this way.
    pub fn new_transform(&self) -> (r: CSHAuthService)
        ensures
            r == (CSHAuthService {
                enabled: self.enabled,
                admin_only: self.admin,
                eboard_only: self.eboard,
                claims: self.claims,
            }),
    {
        CSHAuthService {
            enabled: self.enabled,
            admin_only: self.admin,
            eboard_only: self.eboard,
            claims: self.claims,
        }
    }
}

/// The guard of one route.
#[derive(Debug, Clone, Copy, PartialEq, Eq, Structural)]
pub struct CSHAuthService {
    pub enabled: bool,
    pub admin_only: bool,
    pub eboard_only: bool,
    pub claims: bool,
}

impl CSHAuthService {
    /// What the guard asks of a request: an enabled one the blocklist and
    /// the roles of the route, any other nothing but the claims where they
    /// can be had.
    pub open spec fn checks(&self) -> Checks {
        if self.enabled {
            Checks { required: true, kevlar: true, admin: self.admin_only, eboard: self.eboard_only }
        } else {
            Checks { required: false, kevlar: false, admin: false, eboard: false }
        }
    }

    /// Starts the authorization of a request from the value of its
    /// authorization header, if it has one. A route that is open to everyone
    /// lets the request through at once, with no claims. A guarded route
    /// with security switched off refuses no request, but goes on to hand on
    /// the claims of a request whose token verifies.
    pub fn call(&self, authorization: Option<&str>) -> (r: GateStep)
        ensures
            !self.enabled && !self.claims ==> r == GateStep::Done(Ok(None)),
            self.enabled || self.claims ==> begins(self.checks(), authorization, r),
            !self.enabled ==> !(r matches GateStep::Done(Err(_))),
    {
        if self.enabled {
            begin(
                Checks {
                    required: true,
                    kevlar: true,
                    admin: self.admin_only,
                    eboard: self.eboard_only,
                },
                authorization,
            )
        } else if self.claims {
            begin(
                Checks { required: false, kevlar: false, admin: false, eboard: false },
                authorization,
            )
        } else {
            GateStep::Done(Ok(None))
        }
    }
}

/// Where the checks are required every step stands as it is. Where they are
/// not, no request is refused, and claims that were verified are handed on
/// all the same.
pub proof fn lemma_settled(checks: Checks, step: GateStep)
    ensures
        checks.required ==> settled(checks, step) == step,
        !checks.required ==> !(settled(checks, step) matches GateStep::Done(Err(_))),
        step matches GateStep::Done(Ok(_)) ==> settled(checks, step) == step,
        settled(checks, step) matches GateStep::Done(Ok(Some(_))) ==> settled(checks, step)
            == step,
{
}

/// A token passes its verification if it has not expired, names RS256, and
/// bears a valid signature of the key that its header names: the cached one,
/// or, if none is cached, the one that a refresh of the cache brings.
pub open spec fn token_passes(
    pieces: TokenPieces,
    now: int,
    keys: Map<Seq<char>, RsaKeyView>,
    fetched: Result<Vec<CertKey>, FetchError>,
) -> bool {
    let known = if keys.contains_key(pieces.header.kid@) {
        keys
    } else {
        keys_after(keys, fetched)
    };
    &&& pieces.claims.exp > now
    &&& pieces.header.alg@ == "RS256"@
    &&& keys.contains_key(pieces.header.kid@) || refresh_succeeds(keys, fetched)
    &&& known.contains_key(pieces.header.kid@)
    &&& crate::auth::verify::signature_valid(
        known[pieces.header.kid@],
        crate::auth::verify::signing_input(pieces.header_64@, pieces.payload_64@),
        pieces.signature@,
    )
}

/// Where a decoded token gets to, when the identity provider answers
/// `fetched` if it is asked: the step after the decoding, and the step after
/// the refresh where that was asked for.
pub open spec fn verified_step(
    checks: Checks,
    pieces: TokenPieces,
    now: int,
    keys: Map<Seq<char>, RsaKeyView>,
    fetched: Result<Vec<CertKey>, FetchError>,
    kevlar: Option<Set<Seq<char>>>,
) -> GateStep {
    match after_decoded(checks, pieces, now, keys, kevlar) {
        GateStep::FetchKeys(_, _) => if refresh_succeeds(keys, fetched) {
            after_refresh(checks, pieces, keys_after(keys, fetched), kevlar)
        } else {
            GateStep::Done(Err(Denial::KeyFetchFailed))
        },
        step => step,
    }
}

/// The step ends the authorization with the denial `denial`.
pub open spec fn refuses(step: GateStep, denial: Denial) -> bool {
    step == GateStep::Done(Err(denial))
}

/// A token gets past its verification exactly if it passes the four checks;
/// any other is refused as not authenticated, and neither the blocklist nor
/// the roles are looked at for it.
pub proof fn lemma_only_verified_tokens_pass(
    checks: Checks,
    pieces: TokenPieces,
    now: int,
    keys: Map<Seq<char>, RsaKeyView>,
    fetched: Result<Vec<CertKey>, FetchError>,
    kevlar: Option<Set<Seq<char>>>,
)
    ensures
        token_passes(pieces, now, keys, fetched) ==> verified_step(
            checks,
            pieces,
            now,
            keys,
            fetched,
            kevlar,
        ) == after_verified(checks, pieces.claims, kevlar),
        !token_passes(pieces, now, keys, fetched) ==> exists|denial: Denial|
            denial.outward() == Rejection::Unauthenticated && #[trigger] refuses(
                verified_step(checks, pieces, now, keys, fetched, kevlar),
                denial,
            ),
{
    if !token_passes(pieces, now, keys, fetched) {
        let step = verified_step(checks, pieces, now, keys, fetched, kevlar);
        assert(step is Done && step->Done_0 is Err);
        assert(refuses(step, step->Done_0->Err_0));
    }
}

/// The identity provider is asked for its keys only for a token that has not
/// expired, names RS256, and names a key that is not cached: a key that is
/// cached is never fetched again.
pub proof fn lemma_keys_are_fetched_only_on_a_miss(
    checks: Checks,
    pieces: TokenPieces,
    now: int,
    keys: Map<Seq<char>, RsaKeyView>,
    kevlar: Option<Set<Seq<char>>>,
)
    ensures
        after_decoded(checks, pieces, now, keys, kevlar) is FetchKeys <==> pieces.claims.exp > now
            && pieces.header.alg@ == "RS256"@ && !keys.contains_key(pieces.header.kid@),
        !(after_refresh(checks, pieces, keys, kevlar) is FetchKeys),
{
}

/// The system of record is asked for the blocklist only where the route asks
/// for the blocklist and no snapshot is held: a snapshot that is held
/// answers.
pub proof fn lemma_blocklist_is_loaded_only_once(
    checks: Checks,
    user: User,
    kevlar: Option<Set<Seq<char>>>,
)
    ensures
        after_verified(checks, user, kevlar) is LoadKevlar <==> checks.kevlar && kevlar is None,
{
}

/// A token that has expired when it is verified is refused, whatever its
/// signature is worth.
pub proof fn lemma_expired_token_is_refused(
    checks: Checks,
    pieces: TokenPieces,
    now: int,
    keys: Map<Seq<char>, RsaKeyView>,
    kevlar: Option<Set<Seq<char>>>,
)
    requires
        pieces.claims.exp <= now,
    ensures
        after_decoded(checks, pieces, now, keys, kevlar) == GateStep::Done(Err(Denial::Expired)),
        Denial::Expired.outward() == Rejection::Unauthenticated,
{
}

/// A token that names another algorithm than RS256 is refused, whatever its
/// signature is worth, and no key is fetched for it.
pub proof fn lemma_other_algorithm_is_refused(
    checks: Checks,
    pieces: TokenPieces,
    now: int,
    keys: Map<Seq<char>, RsaKeyView>,
    kevlar: Option<Set<Seq<char>>>,
)
    requires
        pieces.header.alg@ != "RS256"@,
    ensures
        after_decoded(checks, pieces, now, keys, kevlar) == GateStep::Done(
            Err(Denial::UnsupportedAlgorithm),
        ) || after_decoded(checks, pieces, now, keys, kevlar) == GateStep::Done(
            Err(Denial::Expired),
        ),
        Denial::UnsupportedAlgorithm.outward() == Rejection::Unauthenticated,
{
}

/// A token whose key is neither cached nor published is refused after the one
/// refresh, and the refresh leaves no entry for its key in the cache.
pub proof fn lemma_unknown_key_is_refused(
    checks: Checks,
    pieces: TokenPieces,
    now: int,
    keys: Map<Seq<char>, RsaKeyView>,
    kevlar: Option<Set<Seq<char>>>,
    fetched: Result<Vec<CertKey>, FetchError>,
)
    requires
        pieces.claims.exp > now,
        pieces.header.alg@ == "RS256"@,
        !keys.contains_key(pieces.header.kid@),
        fetched is Ok ==> !crate::auth::keys::publishes(fetched->Ok_0@, pieces.header.kid@),
    ensures
        after_decoded(checks, pieces, now, keys, kevlar) == GateStep::FetchKeys(checks, pieces),
        !keys_after(keys, fetched).contains_key(pieces.header.kid@),
        refresh_succeeds(keys, fetched) ==> after_refresh(
            checks,
            pieces,
            keys_after(keys, fetched),
            kevlar,
        ) == GateStep::Done(Err(Denial::UnknownKey)),
{
    if refresh_succeeds(keys, fetched) {
        crate::auth::keys::lemma_refresh_adds_only_published(
            keys,
            fetched->Ok_0@,
            pieces.header.kid@,
        );
    }
}

/// Claims are handed on only for a token that has not expired, is signed
/// with RS256 and bears a valid signature of a cached key; and no step is
/// asked for after the token was refused.
pub proof fn lemma_admitted_token_was_verified(
    checks: Checks,
    pieces: TokenPieces,
    now: int,
    keys: Map<Seq<char>, RsaKeyView>,
    kevlar: Option<Set<Seq<char>>>,
)
    requires
        after_decoded(checks, pieces, now, keys, kevlar) is LoadKevlar || after_decoded(
            checks,
            pieces,
            now,
            keys,
            kevlar,
        ) matches GateStep::Done(Ok(_)),
    ensures
        pieces.claims.exp > now,
        pieces.header.alg@ == "RS256"@,
        keys.contains_key(pieces.header.kid@),
        crate::auth::verify::signature_valid(
            keys[pieces.header.kid@],
            crate::auth::verify::signing_input(pieces.header_64@, pieces.payload_64@),
            pieces.signature@,
        ),
{
}

/// A user who is let through a gate is the user of the token, is not on the
/// blocklist that was consulted, and has the roles that the route asks for.
pub proof fn lemma_admitted_user_passed_checks(
    checks: Checks,
    user: User,
    kevlar: Option<Set<Seq<char>>>,
    admitted: Option<User>,
)
    requires
        after_verified(checks, user, kevlar) == GateStep::Done(Ok(admitted)),
    ensures
        admitted == Some(user),
        checks.kevlar ==> kevlar is Some && !kevlar->0.contains(user.preferred_username@),
        checks.admin ==> user.is_admin(),
        checks.eboard ==> user.is_eboard(),
{
}

/// A blocked user is refused at every guarded route, with the answer that a
/// request without a token gets.
pub proof fn lemma_blocked_user_is_refused(checks: Checks, user: User, blocked: Set<Seq<char>>)
    requires
        checks.kevlar,
        blocked.contains(user.preferred_username@),
    ensures
        after_verified(checks, user, Some(blocked)) == GateStep::Done(Err(Denial::Blocked)),
        Denial::Blocked.outward() == Denial::NoToken.outward(),
{
}

/// An officer is an administrator.
pub proof fn lemma_officer_is_admin(user: User)
    requires
        user.is_eboard(),
    ensures
        user.is_admin(),
{
}

} // verus!
