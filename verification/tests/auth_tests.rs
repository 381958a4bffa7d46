use base64::engine::general_purpose::URL_SAFE_NO_PAD;
use base64::Engine;
use openssl::hash::MessageDigest;
use openssl::pkey::{PKey, Private};
use openssl::rsa::Rsa;
use openssl::sign::Signer;
use quotefault_backend::auth::kevlar::{
    any_user_has_kevlar, clear_kevlar_cache, get_kevlar_users, toggle_kevlar_cache, toggle_row,
    user_has_kevlar, KevlarCache, KevlarRow, StorageError, ToggleOutcome, COOLDOWN_SECONDS,
};
use quotefault_backend::auth::keys::{update_cache, CertKey, FetchError, KeyCache};
use quotefault_backend::auth::token::{
    get_token_pieces, split_segments, strip_bearer, token_segments, TokenSegments,
};
use quotefault_backend::auth::verify::{check_signature, verify_token, Verification};
use quotefault_backend::auth::{
    begin, claims_read, kevlar_loaded, keys_fetched, CSHAuth, CSHAuthService, Checks, Denial,
    GateStep, Rejection, TokenHeader, User,
};

const NOW: i64 = 1_700_000_000;

fn header(alg: &str, kid: &str) -> TokenHeader {
    TokenHeader { alg: alg.to_string(), kid: kid.to_string(), typ: "JWT".to_string() }
}

fn user(name: &str, groups: &[&str], exp: u32) -> User {
    User {
        exp,
        iat: 1_699_990_000,
        auth_time: None,
        jti: "jti".to_string(),
        iss: "https://sso.example/realms/main".to_string(),
        aud: "quotefault".to_string(),
        sub: "subject".to_string(),
        typ: "Bearer".to_string(),
        azp: "quotefault".to_string(),
        nonce: None,
        session_state: None,
        scope: "openid".to_string(),
        sid: None,
        email_verified: true,
        name: Some("A Member".to_string()),
        groups: groups.iter().map(|g| g.to_string()).collect(),
        preferred_username: name.to_string(),
        given_name: None,
        family_name: None,
        email: None,
    }
}

fn test_key() -> PKey<Private> {
    PKey::from_rsa(Rsa::generate(2048).unwrap()).unwrap()
}

fn published(key: &PKey<Private>, kid: &str) -> CertKey {
    let rsa = key.rsa().unwrap();
    CertKey {
        kid: kid.to_string(),
        kty: "RSA".to_string(),
        alg: "RS256".to_string(),
        key_use: "sig".to_string(),
        n: URL_SAFE_NO_PAD.encode(rsa.n().to_vec()),
        e: URL_SAFE_NO_PAD.encode(rsa.e().to_vec()),
    }
}

fn sign(key: &PKey<Private>, header_json: &str, payload_json: &str) -> String {
    let head = URL_SAFE_NO_PAD.encode(header_json);
    let body = URL_SAFE_NO_PAD.encode(payload_json);
    let mut signer = Signer::new(MessageDigest::sha256(), key).unwrap();
    signer.update(head.as_bytes()).unwrap();
    signer.update(b".").unwrap();
    signer.update(body.as_bytes()).unwrap();
    let signature = signer.sign_to_vec().unwrap();
    format!("{}.{}.{}", head, body, URL_SAFE_NO_PAD.encode(signature))
}

fn signed_token(key: &PKey<Private>) -> String {
    sign(key, "{\"alg\":\"RS256\",\"kid\":\"k1\",\"typ\":\"JWT\"}", "{\"sub\":\"subject\"}")
}

fn segments(token: &str) -> TokenSegments {
    token_segments(token).unwrap()
}

fn cache_with(key: &PKey<Private>, kid: &str) -> KeyCache {
    let mut keys = KeyCache::new();
    assert_eq!(update_cache(&mut keys, &vec![published(key, kid)]), Ok(()));
    keys
}

fn loaded_cache(blocked: &[&str]) -> KevlarCache {
    let mut kevlar = KevlarCache::new();
    kevlar.fill(blocked.iter().map(|b| b.to_string()).collect());
    kevlar
}

fn enabled_gate() -> CSHAuthService {
    CSHAuth::enabled(true).new_transform()
}

fn admin_gate() -> CSHAuthService {
    CSHAuth::admin_only(true).new_transform()
}

fn denial(step: &GateStep) -> Option<Denial> {
    match step {
        GateStep::Done(Err(denial)) => Some(*denial),
        _ => None,
    }
}

fn admitted(step: &GateStep) -> Option<Option<String>> {
    match step {
        GateStep::Done(Ok(user)) => Some(user.as_ref().map(|u| u.preferred_username.clone())),
        _ => None,
    }
}

/// Runs a request with a token through a gate: the header and the claims are
/// the ones given, the provider publishes `provider`, the store holds
/// `store`.
fn run(
    gate: &CSHAuthService,
    authorization: Option<&str>,
    head: Option<TokenHeader>,
    claims: Option<User>,
    keys: &mut KeyCache,
    provider: Result<Vec<CertKey>, FetchError>,
    kevlar: &mut KevlarCache,
    store: Result<Vec<String>, StorageError>,
) -> Result<Option<User>, Denial> {
    let mut step = gate.call(authorization);
    let mut provider = Some(provider);
    let mut store = Some(store);
    loop {
        step = match step {
            GateStep::Done(verdict) => return verdict,
            GateStep::ReadClaims(checks, segments) => {
                claims_read(checks, segments, head.clone(), claims.clone(), NOW, keys, kevlar)
            }
            GateStep::FetchKeys(checks, pieces) => {
                keys_fetched(checks, pieces, provider.take().unwrap(), keys, kevlar)
            }
            GateStep::LoadKevlar(checks, user) => {
                kevlar_loaded(checks, user, store.take().unwrap(), kevlar)
            }
        }
    }
}

// ---- token decoder ----

#[test]
fn segments_of_a_token_are_split_and_decoded() {
    let s = segments("aGVhZA.Ym9keQ.c2ln");
    assert_eq!(s.header_64, b"aGVhZA".to_vec());
    assert_eq!(s.header_json, b"head".to_vec());
    assert_eq!(s.payload_64, b"Ym9keQ".to_vec());
    assert_eq!(s.payload_json, b"body".to_vec());
    assert_eq!(s.signature, b"sig".to_vec());
}

#[test]
fn token_with_fewer_than_three_segments_is_malformed() {
    assert!(token_segments("").is_err());
    assert!(token_segments("aGVhZA").is_err());
    assert!(token_segments("aGVhZA.Ym9keQ").is_err());
}

#[test]
fn token_with_empty_segments_decodes_to_empty_bytes() {
    let s = segments("..");
    assert!(s.header_64.is_empty());
    assert!(s.header_json.is_empty());
    assert!(s.payload_json.is_empty());
    assert!(s.signature.is_empty());
}

#[test]
fn token_segment_that_is_not_base64url_is_malformed() {
    assert!(token_segments("aGVh!A.Ym9keQ.c2ln").is_err());
    assert!(token_segments("aGVhZA.Ym9k*Q.c2ln").is_err());
    assert!(token_segments("aGVhZA.Ym9keQ.c2l ").is_err());
    // the standard alphabet is not the URL-safe one
    assert!(token_segments("aGVhZA.Ym9keQ.+/+/").is_err());
    assert!(token_segments("aGVhZA.Ym9keQ.-_-_").is_ok());
}

#[test]
fn token_segment_with_padding_is_malformed() {
    assert!(token_segments("aGVhZA==.Ym9keQ.c2ln").is_err());
}

#[test]
fn what_follows_a_third_separator_is_ignored() {
    let s = segments("aGVhZA.Ym9keQ.c2ln.!!!not base64!!!");
    assert_eq!(s.signature, b"sig".to_vec());
    assert_eq!(s.payload_64, b"Ym9keQ".to_vec());
}

#[test]
fn split_segments_takes_bytes() {
    let s = split_segments(b"aGVhZA.Ym9keQ.c2ln").unwrap();
    assert_eq!(s.header_json, b"head".to_vec());
    assert!(split_segments(&[0xff, b'.', b'.']).is_err());
}

#[test]
fn bearer_prefix_is_stripped_as_often_as_it_stands() {
    assert_eq!(strip_bearer(b"Bearer abc"), b"abc");
    assert_eq!(strip_bearer(b"Bearer Bearer abc"), b"abc");
    assert_eq!(strip_bearer(b"abc"), b"abc");
    assert_eq!(strip_bearer(b"Bearer"), b"Bearer");
    assert_eq!(strip_bearer(b"Bearer "), b"");
    assert_eq!(strip_bearer(b"bearer abc"), b"bearer abc");
    assert_eq!(strip_bearer(b" Bearer abc"), b" Bearer abc");
    assert_eq!(strip_bearer(b""), b"");
}

#[test]
fn pieces_need_header_and_claims() {
    let h = header("RS256", "k1");
    let u = user("mary", &[], 1);
    assert!(get_token_pieces(segments("aGVhZA.Ym9keQ.c2ln"), None, Some(u.clone())).is_err());
    assert!(get_token_pieces(segments("aGVhZA.Ym9keQ.c2ln"), Some(h.clone()), None).is_err());
    assert!(get_token_pieces(segments("aGVhZA.Ym9keQ.c2ln"), None, None).is_err());
    let pieces = get_token_pieces(segments("aGVhZA.Ym9keQ.c2ln"), Some(h), Some(u)).unwrap();
    assert_eq!(pieces.header.kid, "k1");
    assert_eq!(pieces.claims.preferred_username, "mary");
    assert_eq!(pieces.header_64, b"aGVhZA".to_vec());
    assert_eq!(pieces.payload_64, b"Ym9keQ".to_vec());
    assert_eq!(pieces.signature, b"sig".to_vec());
}

// ---- key cache ----

#[test]
fn new_key_cache_is_empty() {
    let keys = KeyCache::new();
    assert!(keys.lookup("k1").is_none());
    assert!(keys.lookup("").is_none());
}

#[test]
fn refresh_caches_the_decoded_components() {
    let mut keys = KeyCache::new();
    let doc = vec![CertKey {
        kid: "k1".to_string(),
        kty: "RSA".to_string(),
        alg: "RS256".to_string(),
        key_use: "sig".to_string(),
        n: "AQID".to_string(),
        e: "AQAB".to_string(),
    }];
    assert_eq!(update_cache(&mut keys, &doc), Ok(()));
    let key = keys.lookup("k1").unwrap();
    assert_eq!(key.modulus, vec![1, 2, 3]);
    assert_eq!(key.exponent, vec![1, 0, 1]);
    assert!(keys.lookup("k2").is_none());
}

fn plain_key(kid: &str, n: &str, e: &str) -> CertKey {
    CertKey {
        kid: kid.to_string(),
        kty: "RSA".to_string(),
        alg: "RS256".to_string(),
        key_use: "sig".to_string(),
        n: n.to_string(),
        e: e.to_string(),
    }
}

#[test]
fn refresh_never_overwrites_a_cached_key() {
    let mut keys = KeyCache::new();
    assert_eq!(update_cache(&mut keys, &vec![plain_key("k1", "AQID", "AQAB")]), Ok(()));
    assert_eq!(
        update_cache(&mut keys, &vec![plain_key("k1", "BAUG", "Aw"), plain_key("k2", "BAUG", "Aw")]),
        Ok(())
    );
    assert_eq!(keys.lookup("k1").unwrap().modulus, vec![1, 2, 3]);
    assert_eq!(keys.lookup("k1").unwrap().exponent, vec![1, 0, 1]);
    assert_eq!(keys.lookup("k2").unwrap().modulus, vec![4, 5, 6]);
    assert_eq!(keys.lookup("k2").unwrap().exponent, vec![3]);
}

#[test]
fn refresh_takes_the_first_of_two_entries_with_one_kid() {
    let mut keys = KeyCache::new();
    let doc = vec![plain_key("k1", "AQID", "AQAB"), plain_key("k1", "!!", "!!")];
    assert_eq!(update_cache(&mut keys, &doc), Ok(()));
    assert_eq!(keys.lookup("k1").unwrap().modulus, vec![1, 2, 3]);
}

#[test]
fn refresh_that_fails_leaves_the_cache_as_it_was() {
    let mut keys = KeyCache::new();
    assert_eq!(update_cache(&mut keys, &vec![plain_key("k0", "AQID", "AQAB")]), Ok(()));
    let doc = vec![plain_key("k1", "AQID", "AQAB"), plain_key("k2", "not base64!", "AQAB")];
    assert_eq!(update_cache(&mut keys, &doc), Err(FetchError::KeyMaterial));
    assert!(keys.lookup("k1").is_none());
    assert!(keys.lookup("k2").is_none());
    assert!(keys.lookup("k0").is_some());
    let doc = vec![plain_key("k3", "AQID", "AQ=B")];
    assert_eq!(update_cache(&mut keys, &doc), Err(FetchError::KeyMaterial));
}

#[test]
fn refresh_refuses_empty_key_material() {
    let mut keys = KeyCache::new();
    assert_eq!(
        update_cache(&mut keys, &vec![plain_key("k1", "", "AQAB")]),
        Err(FetchError::KeyMaterial)
    );
    assert_eq!(
        update_cache(&mut keys, &vec![plain_key("k1", "AQID", "")]),
        Err(FetchError::KeyMaterial)
    );
    assert!(keys.lookup("k1").is_none());
}

#[test]
fn refresh_passes_over_a_bad_entry_whose_kid_is_cached() {
    let mut keys = KeyCache::new();
    assert_eq!(update_cache(&mut keys, &vec![plain_key("k1", "AQID", "AQAB")]), Ok(()));
    assert_eq!(update_cache(&mut keys, &vec![plain_key("k1", "!!", "")]), Ok(()));
    assert_eq!(keys.lookup("k1").unwrap().modulus, vec![1, 2, 3]);
}

#[test]
fn refresh_with_an_empty_key_set_changes_nothing() {
    let mut keys = KeyCache::new();
    assert_eq!(update_cache(&mut keys, &vec![]), Ok(()));
    assert!(keys.lookup("k1").is_none());
}

#[test]
fn refresh_twice_is_refresh_once() {
    let key = test_key();
    let doc = vec![published(&key, "k1"), plain_key("k2", "AQID", "AQAB")];
    let mut keys = KeyCache::new();
    assert_eq!(update_cache(&mut keys, &doc), Ok(()));
    let n1 = keys.lookup("k1").unwrap().modulus.clone();
    assert_eq!(update_cache(&mut keys, &doc), Ok(()));
    assert_eq!(keys.lookup("k1").unwrap().modulus, n1);
    assert_eq!(keys.lookup("k2").unwrap().modulus, vec![1, 2, 3]);
}

// ---- token verifier ----

fn verify(token: &str, head: &TokenHeader, claims: &User, now: i64, keys: &KeyCache) -> Verification {
    let s = segments(token);
    verify_token(head, &s.header_64, claims, &s.payload_64, &s.signature, now, keys)
}

#[test]
fn token_signed_with_a_cached_key_verifies() {
    let key = test_key();
    let keys = cache_with(&key, "k1");
    let token = signed_token(&key);
    let claims = user("mary", &[], (NOW + 60) as u32);
    assert_eq!(verify(&token, &header("RS256", "k1"), &claims, NOW, &keys), Verification::Verified);
}

#[test]
fn token_that_expires_now_or_earlier_is_expired() {
    let key = test_key();
    let keys = cache_with(&key, "k1");
    let token = signed_token(&key);
    let head = header("RS256", "k1");
    let expected = Verification::Denied(Denial::Expired);
    assert_eq!(verify(&token, &head, &user("mary", &[], NOW as u32), NOW, &keys), expected);
    assert_eq!(verify(&token, &head, &user("mary", &[], (NOW - 1) as u32), NOW, &keys), expected);
    assert_eq!(verify(&token, &head, &user("mary", &[], 0), NOW, &keys), expected);
    assert_eq!(
        verify(&token, &head, &user("mary", &[], (NOW + 1) as u32), NOW, &keys),
        Verification::Verified
    );
}

#[test]
fn token_is_not_expired_before_the_epoch() {
    let key = test_key();
    let keys = cache_with(&key, "k1");
    let token = signed_token(&key);
    assert_eq!(
        verify(&token, &header("RS256", "k1"), &user("mary", &[], 0), -1, &keys),
        Verification::Verified
    );
}

#[test]
fn expiry_is_checked_before_everything_else() {
    let keys = KeyCache::new();
    let claims = user("mary", &[], NOW as u32);
    assert_eq!(
        verify("aGVhZA.Ym9keQ.c2ln", &header("none", "nokey"), &claims, NOW, &keys),
        Verification::Denied(Denial::Expired)
    );
}

#[test]
fn token_with_another_algorithm_is_refused() {
    let key = test_key();
    let keys = cache_with(&key, "k1");
    let token = signed_token(&key);
    let claims = user("mary", &[], (NOW + 60) as u32);
    let expected = Verification::Denied(Denial::UnsupportedAlgorithm);
    assert_eq!(verify(&token, &header("none", "k1"), &claims, NOW, &keys), expected);
    assert_eq!(verify(&token, &header("HS256", "k1"), &claims, NOW, &keys), expected);
    assert_eq!(verify(&token, &header("rs256", "k1"), &claims, NOW, &keys), expected);
    assert_eq!(verify(&token, &header("RS256 ", "k1"), &claims, NOW, &keys), expected);
    assert_eq!(verify(&token, &header("", "k1"), &claims, NOW, &keys), expected);
    // and before the key is looked up
    assert_eq!(verify(&token, &header("RS512", "k9"), &claims, NOW, &keys), expected);
}

#[test]
fn token_of_a_key_that_is_not_cached_asks_for_a_refresh() {
    let key = test_key();
    let keys = cache_with(&key, "k1");
    let token = signed_token(&key);
    let claims = user("mary", &[], (NOW + 60) as u32);
    assert_eq!(verify(&token, &header("RS256", "k2"), &claims, NOW, &keys), Verification::KeyMissing);
}

#[test]
fn token_signed_with_another_key_is_refused() {
    let key = test_key();
    let other = test_key();
    let keys = cache_with(&other, "k1");
    let token = signed_token(&key);
    let claims = user("mary", &[], (NOW + 60) as u32);
    assert_eq!(
        verify(&token, &header("RS256", "k1"), &claims, NOW, &keys),
        Verification::Denied(Denial::BadSignature)
    );
}

#[test]
fn token_whose_payload_was_changed_is_refused() {
    let key = test_key();
    let keys = cache_with(&key, "k1");
    let token = signed_token(&key);
    let s = segments(&token);
    let head = header("RS256", "k1");
    let claims = user("mary", &[], (NOW + 60) as u32);
    for i in 0..s.payload_64.len() {
        let mut payload = s.payload_64.clone();
        payload[i] ^= 1;
        assert_eq!(
            verify_token(&head, &s.header_64, &claims, &payload, &s.signature, NOW, &keys),
            Verification::Denied(Denial::BadSignature)
        );
    }
    for i in 0..s.header_64.len() {
        let mut raw = s.header_64.clone();
        raw[i] ^= 1;
        assert_eq!(
            verify_token(&head, &raw, &claims, &s.payload_64, &s.signature, NOW, &keys),
            Verification::Denied(Denial::BadSignature)
        );
    }
    assert_eq!(
        verify_token(&head, &s.header_64, &claims, &s.payload_64, &s.signature, NOW, &keys),
        Verification::Verified
    );
}

#[test]
fn token_whose_signature_was_changed_is_refused() {
    let key = test_key();
    let keys = cache_with(&key, "k1");
    let token = signed_token(&key);
    let s = segments(&token);
    let head = header("RS256", "k1");
    let claims = user("mary", &[], (NOW + 60) as u32);
    let mut signature = s.signature.clone();
    signature[10] ^= 0x40;
    assert_eq!(
        verify_token(&head, &s.header_64, &claims, &s.payload_64, &signature, NOW, &keys),
        Verification::Denied(Denial::BadSignature)
    );
    assert_eq!(
        verify_token(&head, &s.header_64, &claims, &s.payload_64, &[], NOW, &keys),
        Verification::Denied(Denial::BadSignature)
    );
}

#[test]
fn signature_is_over_header_separator_and_payload() {
    let key = test_key();
    let keys = cache_with(&key, "k1");
    let mut signer = Signer::new(MessageDigest::sha256(), &key).unwrap();
    signer.update(b"abc.def").unwrap();
    let signature = signer.sign_to_vec().unwrap();
    let cached = keys.lookup("k1").unwrap();
    assert!(check_signature(cached, b"abc", b"def", &signature));
    assert!(!check_signature(cached, b"abc.", b"def", &signature));
    assert!(!check_signature(cached, b"abcdef", b"", &signature));
    assert!(!check_signature(cached, b"ab", b"c.def", &signature));
    assert!(!check_signature(cached, b"def", b"abc", &signature));
}

#[test]
fn unusable_key_counts_as_a_bad_signature() {
    let mut keys = KeyCache::new();
    assert_eq!(update_cache(&mut keys, &vec![plain_key("k1", "AQID", "AQAB")]), Ok(()));
    let claims = user("mary", &[], (NOW + 60) as u32);
    assert_eq!(
        verify("aGVhZA.Ym9keQ.c2ln", &header("RS256", "k1"), &claims, NOW, &keys),
        Verification::Denied(Denial::BadSignature)
    );
}

// ---- roles ----

#[test]
fn officers_and_staff_are_admins() {
    assert!(user("a", &["eboard"], 0).admin());
    assert!(user("a", &["rtp"], 0).admin());
    assert!(user("a", &["member", "rtp", "active"], 0).admin());
    assert!(!user("a", &["member", "active"], 0).admin());
    assert!(!user("a", &[], 0).admin());
    assert!(!user("a", &["Eboard", "eboard ", "rt"], 0).admin());
}

#[test]
fn only_officers_are_eboard() {
    assert!(user("a", &["eboard"], 0).eboard());
    assert!(user("a", &["member", "eboard"], 0).eboard());
    assert!(!user("a", &["rtp"], 0).eboard());
    assert!(!user("a", &[], 0).eboard());
}

// ---- blocklist cache ----

#[test]
fn new_blocklist_cache_is_not_loaded() {
    let kevlar = KevlarCache::new();
    assert!(!kevlar.is_loaded());
    assert_eq!(user_has_kevlar(&kevlar, "mary"), None);
    assert!(get_kevlar_users(&kevlar).is_none());
}

#[test]
fn loaded_blocklist_answers_membership() {
    let kevlar = loaded_cache(&["mary", "joe"]);
    assert!(kevlar.is_loaded());
    assert_eq!(user_has_kevlar(&kevlar, "mary"), Some(true));
    assert_eq!(user_has_kevlar(&kevlar, "joe"), Some(true));
    assert_eq!(user_has_kevlar(&kevlar, "ann"), Some(false));
    assert_eq!(user_has_kevlar(&kevlar, "Mary"), Some(false));
    assert_eq!(user_has_kevlar(&kevlar, ""), Some(false));
    let mut users = get_kevlar_users(&kevlar).unwrap();
    users.sort();
    assert_eq!(users, vec!["joe".to_string(), "mary".to_string()]);
}

#[test]
fn loaded_empty_blocklist_blocks_nobody() {
    let kevlar = loaded_cache(&[]);
    assert!(kevlar.is_loaded());
    assert_eq!(user_has_kevlar(&kevlar, "mary"), Some(false));
    assert_eq!(any_user_has_kevlar(&kevlar, &["mary".to_string()]), Some(false));
}

#[test]
fn any_blocked_of_no_user_is_false_without_a_snapshot() {
    let kevlar = KevlarCache::new();
    assert_eq!(any_user_has_kevlar(&kevlar, &[]), Some(false));
    assert_eq!(any_user_has_kevlar(&kevlar, &["mary".to_string()]), None);
    assert!(!kevlar.is_loaded());
}

#[test]
fn any_blocked_is_true_if_one_is_blocked() {
    let kevlar = loaded_cache(&["mary"]);
    let names = |v: &[&str]| v.iter().map(|n| n.to_string()).collect::<Vec<String>>();
    assert_eq!(any_user_has_kevlar(&kevlar, &names(&["ann", "mary"])), Some(true));
    assert_eq!(any_user_has_kevlar(&kevlar, &names(&["mary", "ann"])), Some(true));
    assert_eq!(any_user_has_kevlar(&kevlar, &names(&["ann", "joe"])), Some(false));
    assert_eq!(any_user_has_kevlar(&kevlar, &[]), Some(false));
}

#[test]
fn a_second_load_does_not_replace_the_snapshot() {
    let mut kevlar = loaded_cache(&["mary"]);
    kevlar.fill(vec!["joe".to_string()]);
    assert_eq!(user_has_kevlar(&kevlar, "mary"), Some(true));
    assert_eq!(user_has_kevlar(&kevlar, "joe"), Some(false));
}

#[test]
fn cleared_blocklist_has_to_be_loaded_again() {
    let mut kevlar = loaded_cache(&["mary"]);
    clear_kevlar_cache(&mut kevlar);
    assert!(!kevlar.is_loaded());
    assert_eq!(user_has_kevlar(&kevlar, "mary"), None);
    kevlar.fill(vec!["joe".to_string()]);
    assert_eq!(user_has_kevlar(&kevlar, "mary"), Some(false));
    assert_eq!(user_has_kevlar(&kevlar, "joe"), Some(true));
}

#[test]
fn toggle_twice_within_a_day_then_after_it() {
    let first = toggle_row(None, "mary", NOW);
    assert_eq!(first.outcome, ToggleOutcome::Toggled);
    assert_eq!(first.row.uid, "mary");
    assert!(first.row.enabled);
    assert_eq!(first.row.last_modified, NOW);

    let second = toggle_row(Some(first.row.clone()), "mary", NOW + 3600);
    assert_eq!(second.outcome, ToggleOutcome::TooRecent);
    assert!(second.row.enabled);
    assert_eq!(second.row.last_modified, NOW);

    let third = toggle_row(Some(second.row.clone()), "mary", NOW + COOLDOWN_SECONDS + 1);
    assert_eq!(third.outcome, ToggleOutcome::Toggled);
    assert!(!third.row.enabled);
    assert_eq!(third.row.last_modified, NOW + COOLDOWN_SECONDS + 1);

    let fourth = toggle_row(Some(third.row.clone()), "mary", NOW + 3 * COOLDOWN_SECONDS);
    assert_eq!(fourth.outcome, ToggleOutcome::Toggled);
    assert!(fourth.row.enabled);
}

#[test]
fn cooldown_is_a_day_to_the_second() {
    assert_eq!(COOLDOWN_SECONDS, 86400);
    let row = KevlarRow { uid: "mary".to_string(), enabled: true, last_modified: NOW };
    assert_eq!(toggle_row(Some(row.clone()), "mary", NOW + 86399).outcome, ToggleOutcome::TooRecent);
    assert_eq!(toggle_row(Some(row.clone()), "mary", NOW + 86400).outcome, ToggleOutcome::Toggled);
    assert_eq!(toggle_row(Some(row.clone()), "mary", NOW).outcome, ToggleOutcome::TooRecent);
    // a clock that went back
    assert_eq!(toggle_row(Some(row.clone()), "mary", NOW - 5).outcome, ToggleOutcome::TooRecent);
}

#[test]
fn toggle_at_the_ends_of_time_does_not_overflow() {
    let row = KevlarRow { uid: "mary".to_string(), enabled: false, last_modified: i64::MIN };
    let t = toggle_row(Some(row), "mary", i64::MAX);
    assert_eq!(t.outcome, ToggleOutcome::Toggled);
    assert!(t.row.enabled);
    let row = KevlarRow { uid: "mary".to_string(), enabled: false, last_modified: i64::MAX };
    let t = toggle_row(Some(row), "mary", i64::MIN);
    assert_eq!(t.outcome, ToggleOutcome::TooRecent);
    assert!(!t.row.enabled);
    assert_eq!(t.row.last_modified, i64::MAX);
}

#[test]
fn successful_toggle_drops_a_stale_snapshot() {
    let mut kevlar = loaded_cache(&[]);
    assert_eq!(user_has_kevlar(&kevlar, "mary"), Some(false));
    let toggle = toggle_row(None, "mary", NOW);
    toggle_kevlar_cache(&mut kevlar, toggle.outcome);
    assert_eq!(user_has_kevlar(&kevlar, "mary"), None);
    // the next reader loads what the store holds now
    kevlar.fill(vec![toggle.row.uid.clone()]);
    assert_eq!(user_has_kevlar(&kevlar, "mary"), Some(true));
}

#[test]
fn toggle_that_came_too_early_keeps_the_snapshot() {
    let mut kevlar = loaded_cache(&["mary"]);
    toggle_kevlar_cache(&mut kevlar, ToggleOutcome::TooRecent);
    assert_eq!(user_has_kevlar(&kevlar, "mary"), Some(true));
}

// ---- gate ----

#[test]
fn denial_folds_into_two_answers() {
    let unauthenticated = [
        Denial::NoToken,
        Denial::MalformedToken,
        Denial::Expired,
        Denial::UnsupportedAlgorithm,
        Denial::KeyFetchFailed,
        Denial::UnknownKey,
        Denial::BadSignature,
        Denial::Blocked,
        Denial::MissingRole,
    ];
    for d in unauthenticated {
        assert_eq!(d.rejection(), Rejection::Unauthenticated);
    }
    assert_eq!(Denial::StorageFailed.rejection(), Rejection::InternalError);
}

#[test]
fn gate_modes_are_built_from_the_security_switch() {
    let mode = |enabled, admin, eboard, claims| CSHAuth { enabled, admin, eboard, claims };
    assert_eq!(CSHAuth::enabled(true), mode(true, false, false, true));
    assert_eq!(CSHAuth::admin_only(true), mode(true, true, false, true));
    assert_eq!(CSHAuth::eboard_only(true), mode(true, false, true, true));
    assert_eq!(CSHAuth::disabled(), mode(false, false, false, false));
    assert_eq!(CSHAuth::enabled(false), mode(false, false, false, true));
    assert_eq!(CSHAuth::admin_only(false), mode(false, true, false, true));
    assert_eq!(CSHAuth::eboard_only(false), mode(false, false, true, true));
    assert_eq!(
        CSHAuth::admin_only(true).new_transform(),
        CSHAuthService { enabled: true, admin_only: true, eboard_only: false, claims: true }
    );
    assert_eq!(
        CSHAuth::eboard_only(false).new_transform(),
        CSHAuthService { enabled: false, admin_only: false, eboard_only: true, claims: true }
    );
    assert_eq!(
        CSHAuth::disabled().new_transform(),
        CSHAuthService { enabled: false, admin_only: false, eboard_only: false, claims: false }
    );
}

#[test]
fn disabled_route_lets_everything_through_without_claims() {
    let gate = CSHAuth::disabled().new_transform();
    assert_eq!(admitted(&gate.call(None)), Some(None));
    assert_eq!(admitted(&gate.call(Some("garbage"))), Some(None));
    // not even a token that could be read is looked at
    assert_eq!(admitted(&gate.call(Some("aGVhZA.Ym9keQ.c2ln"))), Some(None));
}

#[test]
fn security_switched_off_lets_requests_without_a_usable_token_through() {
    for gate in [
        CSHAuth::enabled(false).new_transform(),
        CSHAuth::admin_only(false).new_transform(),
        CSHAuth::eboard_only(false).new_transform(),
    ] {
        assert_eq!(admitted(&gate.call(None)), Some(None));
        assert_eq!(admitted(&gate.call(Some("garbage"))), Some(None));
        assert_eq!(admitted(&gate.call(Some("Bearer a.b.c"))), Some(None));
    }
}

#[test]
fn security_switched_off_still_hands_on_verified_claims() {
    let key = test_key();
    let gate = CSHAuth::admin_only(false).new_transform();
    let token = signed_token(&key);
    // a member without the role, and on the blocklist: let through, with claims
    let mut keys = cache_with(&key, "k1");
    let mut kevlar = loaded_cache(&["mary"]);
    let verdict = run(
        &gate,
        Some(&token),
        Some(header("RS256", "k1")),
        Some(user("mary", &["member"], (NOW + 60) as u32)),
        &mut keys,
        Err(FetchError::Unreachable),
        &mut kevlar,
        Err(StorageError),
    );
    assert_eq!(verdict.unwrap().unwrap().preferred_username, "mary");
    // the key is fetched where it is missing
    let mut keys = KeyCache::new();
    let verdict = run(
        &gate,
        Some(&token),
        Some(header("RS256", "k1")),
        Some(user("mary", &[], (NOW + 60) as u32)),
        &mut keys,
        Ok(vec![published(&key, "k1")]),
        &mut kevlar,
        Err(StorageError),
    );
    assert_eq!(verdict.unwrap().unwrap().preferred_username, "mary");
}

#[test]
fn security_switched_off_hands_on_no_claims_that_do_not_verify() {
    let key = test_key();
    let other = test_key();
    let gate = CSHAuth::enabled(false).new_transform();
    let token = signed_token(&key);
    let mut kevlar = KevlarCache::new();
    let claims = |exp: i64| Some(user("mary", &[], exp as u32));
    let cases: Vec<(Option<TokenHeader>, Option<User>, KeyCache, Result<Vec<CertKey>, FetchError>)> = vec![
        (Some(header("RS256", "k1")), claims(NOW), cache_with(&key, "k1"), Ok(vec![])),
        (Some(header("none", "k1")), claims(NOW + 60), cache_with(&key, "k1"), Ok(vec![])),
        (Some(header("RS256", "k1")), claims(NOW + 60), cache_with(&other, "k1"), Ok(vec![])),
        (Some(header("RS256", "k1")), claims(NOW + 60), KeyCache::new(), Ok(vec![])),
        (Some(header("RS256", "k1")), claims(NOW + 60), KeyCache::new(), Err(FetchError::Unreachable)),
        (Some(header("RS256", "k1")), None, cache_with(&key, "k1"), Ok(vec![])),
        (None, claims(NOW + 60), cache_with(&key, "k1"), Ok(vec![])),
    ];
    for (head, claims, mut keys, provider) in cases {
        let verdict =
            run(&gate, Some(&token), head, claims, &mut keys, provider, &mut kevlar, Err(StorageError));
        assert!(matches!(verdict, Ok(None)));
    }
    assert!(!kevlar.is_loaded());
}

#[test]
fn request_without_a_token_is_unauthenticated() {
    let step = enabled_gate().call(None);
    assert_eq!(denial(&step), Some(Denial::NoToken));
    assert_eq!(denial(&step).unwrap().rejection(), Rejection::Unauthenticated);
}

#[test]
fn blocked_user_is_refused_like_a_request_without_a_token() {
    let key = test_key();
    let mut keys = cache_with(&key, "k1");
    let mut kevlar = KevlarCache::new();
    let token = format!("Bearer {}", signed_token(&key));
    let verdict = run(
        &enabled_gate(),
        Some(&token),
        Some(header("RS256", "k1")),
        Some(user("mary", &["eboard"], (NOW + 60) as u32)),
        &mut keys,
        Err(FetchError::Unreachable),
        &mut kevlar,
        Ok(vec!["mary".to_string()]),
    );
    let d = verdict.unwrap_err();
    assert_eq!(d, Denial::Blocked);
    assert_eq!(d.rejection(), Denial::NoToken.rejection());
    assert_eq!(d.rejection(), Rejection::Unauthenticated);
}

#[test]
fn user_without_the_admin_role_is_refused() {
    let key = test_key();
    let mut keys = cache_with(&key, "k1");
    let mut kevlar = KevlarCache::new();
    let token = format!("Bearer {}", signed_token(&key));
    let verdict = run(
        &admin_gate(),
        Some(&token),
        Some(header("RS256", "k1")),
        Some(user("mary", &["member"], (NOW + 60) as u32)),
        &mut keys,
        Err(FetchError::Unreachable),
        &mut kevlar,
        Ok(vec![]),
    );
    let d = verdict.unwrap_err();
    assert_eq!(d, Denial::MissingRole);
    assert_eq!(d.rejection(), Rejection::Unauthenticated);
}

#[test]
fn admin_is_let_through_with_claims() {
    let key = test_key();
    let mut keys = cache_with(&key, "k1");
    let mut kevlar = KevlarCache::new();
    let token = format!("Bearer {}", signed_token(&key));
    let verdict = run(
        &admin_gate(),
        Some(&token),
        Some(header("RS256", "k1")),
        Some(user("mary", &["member", "rtp"], (NOW + 60) as u32)),
        &mut keys,
        Err(FetchError::Unreachable),
        &mut kevlar,
        Ok(vec!["joe".to_string()]),
    );
    let claims = verdict.unwrap().unwrap();
    assert_eq!(claims.preferred_username, "mary");
    assert_eq!(claims.groups, vec!["member".to_string(), "rtp".to_string()]);
    assert!(kevlar.is_loaded());
}

#[test]
fn officer_route_asks_for_the_officer_group() {
    let key = test_key();
    let gate = CSHAuth::eboard_only(true).new_transform();
    let token = signed_token(&key);
    let check = |groups: &[&str]| {
        let mut keys = cache_with(&key, "k1");
        let mut kevlar = loaded_cache(&[]);
        run(
            &gate,
            Some(&token),
            Some(header("RS256", "k1")),
            Some(user("mary", groups, (NOW + 60) as u32)),
            &mut keys,
            Err(FetchError::Unreachable),
            &mut kevlar,
            Err(StorageError),
        )
    };
    assert_eq!(check(&["rtp"]).unwrap_err(), Denial::MissingRole);
    assert_eq!(check(&[]).unwrap_err(), Denial::MissingRole);
    assert_eq!(check(&["eboard"]).unwrap().unwrap().preferred_username, "mary");
}

#[test]
fn token_without_the_bearer_word_is_taken_too() {
    let key = test_key();
    let mut keys = cache_with(&key, "k1");
    let mut kevlar = loaded_cache(&[]);
    let token = signed_token(&key);
    let verdict = run(
        &enabled_gate(),
        Some(&token),
        Some(header("RS256", "k1")),
        Some(user("mary", &[], (NOW + 60) as u32)),
        &mut keys,
        Err(FetchError::Unreachable),
        &mut kevlar,
        Err(StorageError),
    );
    assert_eq!(verdict.unwrap().unwrap().preferred_username, "mary");
}

#[test]
fn malformed_token_is_refused_at_once() {
    let gate = enabled_gate();
    assert_eq!(denial(&gate.call(Some(""))), Some(Denial::MalformedToken));
    assert_eq!(denial(&gate.call(Some("Bearer "))), Some(Denial::MalformedToken));
    assert_eq!(denial(&gate.call(Some("Bearer a.b"))), Some(Denial::MalformedToken));
    assert_eq!(denial(&gate.call(Some("Bearer a.b.c"))), Some(Denial::MalformedToken));
    assert_eq!(denial(&gate.call(Some("Basic dXNlcjpwYXNz"))), Some(Denial::MalformedToken));
    assert!(matches!(gate.call(Some("Bearer aGVhZA.Ym9keQ.c2ln")), GateStep::ReadClaims(..)));
}

#[test]
fn gate_hands_its_checks_on() {
    match admin_gate().call(Some("aGVhZA.Ym9keQ.c2ln")) {
        GateStep::ReadClaims(checks, s) => {
            assert_eq!(checks, Checks { required: true, kevlar: true, admin: true, eboard: false });
            assert_eq!(s.header_json, b"head".to_vec());
        }
        _ => panic!("the claims are to be read"),
    }
    match User::from_request(Some("aGVhZA.Ym9keQ.c2ln")) {
        GateStep::ReadClaims(checks, _) => {
            assert_eq!(
                checks,
                Checks { required: true, kevlar: false, admin: false, eboard: false }
            );
        }
        _ => panic!("the claims are to be read"),
    }
    let asked = Checks { required: true, kevlar: false, admin: false, eboard: true };
    match begin(asked, Some("aGVhZA.Ym9keQ.c2ln")) {
        GateStep::ReadClaims(checks, _) => assert_eq!(checks, asked),
        _ => panic!("the claims are to be read"),
    }
    match CSHAuth::admin_only(false).new_transform().call(Some("aGVhZA.Ym9keQ.c2ln")) {
        GateStep::ReadClaims(checks, _) => {
            assert_eq!(
                checks,
                Checks { required: false, kevlar: false, admin: false, eboard: false }
            );
        }
        _ => panic!("the claims are to be read"),
    }
}

#[test]
fn token_whose_claims_cannot_be_read_is_malformed() {
    let key = test_key();
    let mut keys = cache_with(&key, "k1");
    let mut kevlar = loaded_cache(&[]);
    let token = signed_token(&key);
    let verdict = run(
        &enabled_gate(),
        Some(&token),
        Some(header("RS256", "k1")),
        None,
        &mut keys,
        Err(FetchError::Unreachable),
        &mut kevlar,
        Err(StorageError),
    );
    assert_eq!(verdict.unwrap_err(), Denial::MalformedToken);
    let verdict = run(
        &enabled_gate(),
        Some(&token),
        None,
        Some(user("mary", &[], (NOW + 60) as u32)),
        &mut keys,
        Err(FetchError::Unreachable),
        &mut kevlar,
        Err(StorageError),
    );
    assert_eq!(verdict.unwrap_err(), Denial::MalformedToken);
}

#[test]
fn expired_token_is_refused_before_anything_is_fetched() {
    let key = test_key();
    let mut keys = KeyCache::new();
    let mut kevlar = KevlarCache::new();
    let token = signed_token(&key);
    let verdict = run(
        &enabled_gate(),
        Some(&token),
        Some(header("RS256", "k1")),
        Some(user("mary", &[], NOW as u32)),
        &mut keys,
        Ok(vec![published(&key, "k1")]),
        &mut kevlar,
        Ok(vec![]),
    );
    assert_eq!(verdict.unwrap_err(), Denial::Expired);
    assert!(keys.lookup("k1").is_none());
    assert!(!kevlar.is_loaded());
}

#[test]
fn missing_key_is_fetched_once_and_cached() {
    let key = test_key();
    let mut keys = KeyCache::new();
    let mut kevlar = loaded_cache(&[]);
    let token = signed_token(&key);
    let verdict = run(
        &enabled_gate(),
        Some(&token),
        Some(header("RS256", "k1")),
        Some(user("mary", &[], (NOW + 60) as u32)),
        &mut keys,
        Ok(vec![published(&key, "k1")]),
        &mut kevlar,
        Err(StorageError),
    );
    assert_eq!(verdict.unwrap().unwrap().preferred_username, "mary");
    assert!(keys.lookup("k1").is_some());
}

#[test]
fn key_that_the_provider_does_not_publish_is_unknown() {
    let key = test_key();
    let mut keys = KeyCache::new();
    let mut kevlar = loaded_cache(&[]);
    let token = signed_token(&key);
    let verdict = run(
        &enabled_gate(),
        Some(&token),
        Some(header("RS256", "k1")),
        Some(user("mary", &[], (NOW + 60) as u32)),
        &mut keys,
        Ok(vec![published(&key, "k2")]),
        &mut kevlar,
        Err(StorageError),
    );
    assert_eq!(verdict.unwrap_err(), Denial::UnknownKey);
    assert!(keys.lookup("k1").is_none());
    assert!(keys.lookup("k2").is_some());
}

#[test]
fn failed_fetch_refuses_the_request_and_keeps_the_cache() {
    let key = test_key();
    let token = signed_token(&key);
    for provider in [
        Err(FetchError::Unreachable),
        Err(FetchError::Document),
        Ok(vec![plain_key("k1", "AQID", "AQAB"), plain_key("k3", "?", "AQAB")]),
    ] {
        let mut keys = cache_with(&key, "k0");
        let mut kevlar = loaded_cache(&[]);
        let verdict = run(
            &enabled_gate(),
            Some(&token),
            Some(header("RS256", "k1")),
            Some(user("mary", &[], (NOW + 60) as u32)),
            &mut keys,
            provider,
            &mut kevlar,
            Err(StorageError),
        );
        let d = verdict.unwrap_err();
        assert_eq!(d, Denial::KeyFetchFailed);
        assert_eq!(d.rejection(), Rejection::Unauthenticated);
        assert!(keys.lookup("k0").is_some());
        assert!(keys.lookup("k1").is_none());
    }
}

#[test]
fn fetched_key_that_did_not_sign_the_token_is_a_bad_signature() {
    let key = test_key();
    let other = test_key();
    let mut keys = KeyCache::new();
    let mut kevlar = loaded_cache(&[]);
    let token = signed_token(&key);
    let verdict = run(
        &enabled_gate(),
        Some(&token),
        Some(header("RS256", "k1")),
        Some(user("mary", &[], (NOW + 60) as u32)),
        &mut keys,
        Ok(vec![published(&other, "k1")]),
        &mut kevlar,
        Err(StorageError),
    );
    assert_eq!(verdict.unwrap_err(), Denial::BadSignature);
}

#[test]
fn storage_failure_is_an_internal_error() {
    let key = test_key();
    let mut keys = cache_with(&key, "k1");
    let mut kevlar = KevlarCache::new();
    let token = signed_token(&key);
    let verdict = run(
        &enabled_gate(),
        Some(&token),
        Some(header("RS256", "k1")),
        Some(user("mary", &[], (NOW + 60) as u32)),
        &mut keys,
        Err(FetchError::Unreachable),
        &mut kevlar,
        Err(StorageError),
    );
    let d = verdict.unwrap_err();
    assert_eq!(d, Denial::StorageFailed);
    assert_eq!(d.rejection(), Rejection::InternalError);
    assert!(!kevlar.is_loaded());
}

#[test]
fn loaded_blocklist_is_not_loaded_again() {
    let key = test_key();
    let mut keys = cache_with(&key, "k1");
    let mut kevlar = loaded_cache(&["joe"]);
    let token = signed_token(&key);
    // the store would fail, but it is not asked
    let verdict = run(
        &enabled_gate(),
        Some(&token),
        Some(header("RS256", "k1")),
        Some(user("mary", &[], (NOW + 60) as u32)),
        &mut keys,
        Err(FetchError::Unreachable),
        &mut kevlar,
        Err(StorageError),
    );
    assert_eq!(verdict.unwrap().unwrap().preferred_username, "mary");
}

#[test]
fn blocklist_is_checked_before_the_role() {
    let key = test_key();
    let mut keys = cache_with(&key, "k1");
    let mut kevlar = loaded_cache(&["mary"]);
    let token = signed_token(&key);
    let verdict = run(
        &admin_gate(),
        Some(&token),
        Some(header("RS256", "k1")),
        Some(user("mary", &[], (NOW + 60) as u32)),
        &mut keys,
        Err(FetchError::Unreachable),
        &mut kevlar,
        Err(StorageError),
    );
    assert_eq!(verdict.unwrap_err(), Denial::Blocked);
}

#[test]
fn claims_alone_do_not_ask_for_the_blocklist() {
    let key = test_key();
    let keys = cache_with(&key, "k1");
    let kevlar = KevlarCache::new();
    let token = signed_token(&key);
    let step = match User::from_request(Some(&token)) {
        GateStep::ReadClaims(checks, s) => claims_read(
            checks,
            s,
            Some(header("RS256", "k1")),
            Some(user("mary", &[], (NOW + 60) as u32)),
            NOW,
            &keys,
            &kevlar,
        ),
        _ => panic!("the claims are to be read"),
    };
    assert_eq!(admitted(&step), Some(Some("mary".to_string())));
    assert_eq!(denial(&User::from_request(None)), Some(Denial::NoToken));
}

#[test]
fn a_load_that_lost_the_race_answers_from_the_loaded_snapshot() {
    let mut kevlar = loaded_cache(&["mary"]);
    let checks = Checks { required: true, kevlar: true, admin: false, eboard: false };
    let step = kevlar_loaded(checks, user("mary", &[], 0), Ok(vec![]), &mut kevlar);
    assert_eq!(denial(&step), Some(Denial::Blocked));
}

#[test]
fn token_with_another_algorithm_is_refused_at_a_guarded_route() {
    let key = test_key();
    let mut keys = cache_with(&key, "k1");
    let mut kevlar = loaded_cache(&[]);
    let token = signed_token(&key);
    let verdict = run(
        &enabled_gate(),
        Some(&token),
        Some(header("none", "k1")),
        Some(user("mary", &["rtp"], (NOW + 60) as u32)),
        &mut keys,
        Err(FetchError::Unreachable),
        &mut kevlar,
        Err(StorageError),
    );
    let d = verdict.unwrap_err();
    assert_eq!(d, Denial::UnsupportedAlgorithm);
    assert_eq!(d.rejection(), Rejection::Unauthenticated);
}

#[test]
fn request_is_done_with_after_three_answers_at_most() {
    // claims, keys and blocklist are each asked for once
    let key = test_key();
    let keys = KeyCache::new();
    let kevlar = KevlarCache::new();
    let token = signed_token(&key);
    let (checks, s) = match enabled_gate().call(Some(&token)) {
        GateStep::ReadClaims(checks, s) => (checks, s),
        _ => panic!("the claims are to be read"),
    };
    let claims = Some(user("mary", &[], (NOW + 60) as u32));
    let (checks, pieces) =
        match claims_read(checks, s, Some(header("RS256", "k1")), claims, NOW, &keys, &kevlar) {
            GateStep::FetchKeys(checks, pieces) => (checks, pieces),
            _ => panic!("the keys are to be fetched"),
        };
    let mut keys = keys;
    let (checks, claims) =
        match keys_fetched(checks, pieces, Ok(vec![published(&key, "k1")]), &mut keys, &kevlar) {
            GateStep::LoadKevlar(checks, claims) => (checks, claims),
            _ => panic!("the blocklist is to be loaded"),
        };
    let mut kevlar = kevlar;
    let step = kevlar_loaded(checks, claims, Ok(vec![]), &mut kevlar);
    assert_eq!(admitted(&step), Some(Some("mary".to_string())));
}
