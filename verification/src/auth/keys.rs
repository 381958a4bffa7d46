use crate::auth::token::{base64url_decode, base64url_decoded};
use vstd::prelude::*;
use vstd::string::StringExecFns;
use vstd::utf8::encode_utf8;

verus! {

/// One entry of the key set that the identity provider publishes. `n` and `e`
/// are the modulus and the public exponent of an RSA key, big-endian, in
/// base64url without padding.
#[derive(Debug, Clone)]
pub struct CertKey {
    pub kid: String,
    pub kty: String,
    pub alg: String,
    pub key_use: String,
    pub n: String,
    pub e: String,
}

/// An RSA public key: modulus and public exponent, big-endian.
#[derive(Debug, Clone)]
pub struct RsaPublicKey {
    pub modulus: Vec<u8>,
    pub exponent: Vec<u8>,
}

/// An RSA public key as contracts speak of it.
pub ghost struct RsaKeyView {
    pub modulus: Seq<u8>,
    pub exponent: Seq<u8>,
}

impl View for RsaPublicKey {
    type V = RsaKeyView;

    open spec fn view(&self) -> RsaKeyView {
        RsaKeyView { modulus: self.modulus@, exponent: self.exponent@ }
    }
}

/// Why the key set could not be brought up to date.
#[derive(Debug, Clone, Copy, PartialEq, Eq, Structural)]
pub enum FetchError {
    /// The identity provider could not be reached in time.
    Unreachable,
    /// What it sent is not a key set.
    Document,
    /// A published key has a modulus or an exponent that is not base64url, or
    /// is empty.
    KeyMaterial,
}

/// The key that a published entry stands for, if its modulus and exponent
/// decode and neither is empty.
pub open spec fn published_key(key: CertKey) -> Option<RsaKeyView> {
    match (base64url_decoded(encode_utf8(key.n@)), base64url_decoded(encode_utf8(key.e@))) {
        (Some(modulus), Some(exponent)) => if modulus.len() > 0 && exponent.len() > 0 {
            Some(RsaKeyView { modulus, exponent })
        } else {
            None
        },
        _ => None,
    }
}

/// The cache after a refresh with the key set `published`, taken in order: an
/// entry whose key identifier is cached already is passed over, any other is
/// decoded and added. `None` if one that had to be decoded could not be.
pub open spec fn refreshed(
    cache: Map<Seq<char>, RsaKeyView>,
    published: Seq<CertKey>,
) -> Option<Map<Seq<char>, RsaKeyView>>
    decreases published.len(),
{
    if published.len() == 0 {
        Some(cache)
    } else if cache.contains_key(published[0].kid@) {
        refreshed(cache, published.drop_first())
    } else {
        match published_key(published[0]) {
            Some(key) => refreshed(cache.insert(published[0].kid@, key), published.drop_first()),
            None => None,
        }
    }
}

/// Whether `kid` identifies one of the published keys.
pub open spec fn publishes(published: Seq<CertKey>, kid: Seq<char>) -> bool {
    exists|i: int| 0 <= i < published.len() && (#[trigger] published[i]).kid@ == kid
}

struct KeyEntry {
    kid: String,
    key: RsaPublicKey,
}

/// The keys of the identity provider that this process has seen, by key
/// identifier. A key that was cached stays, and stays as it is.
pub struct KeyCache {
    entries: Vec<KeyEntry>,
}

spec fn entries_map(entries: Seq<KeyEntry>) -> Map<Seq<char>, RsaKeyView>
    decreases entries.len(),
{
    if entries.len() == 0 {
        Map::empty()
    } else {
        entries_map(entries.drop_last()).insert(entries.last().kid@, entries.last().key@)
    }
}

/// `i` is the place of the last entry for `kid`.
spec fn last_match(entries: Seq<KeyEntry>, kid: Seq<char>, i: int) -> bool {
    &&& 0 <= i < entries.len()
    &&& entries[i].kid@ == kid
    &&& forall|j: int| i < j < entries.len() ==> (#[trigger] entries[j]).kid@ != kid
}

spec fn no_match(entries: Seq<KeyEntry>, kid: Seq<char>) -> bool {
    forall|j: int| 0 <= j < entries.len() ==> (#[trigger] entries[j]).kid@ != kid
}

proof fn lemma_entries_map_found(entries: Seq<KeyEntry>, kid: Seq<char>, i: int)
    requires
        last_match(entries, kid, i),
    ensures
        entries_map(entries).contains_key(kid),
        entries_map(entries)[kid] == entries[i].key@,
    decreases entries.len(),
{
    if i < entries.len() - 1 {
        let front = entries.drop_last();
        assert(entries.last().kid@ != kid);
        assert forall|j: int| i < j < front.len() implies (#[trigger] front[j]).kid@ != kid by {
            assert(front[j] == entries[j]);
        }
        lemma_entries_map_found(front, kid, i);
    }
}

proof fn lemma_entries_map_absent(entries: Seq<KeyEntry>, kid: Seq<char>)
    requires
        no_match(entries, kid),
    ensures
        !entries_map(entries).contains_key(kid),
    decreases entries.len(),
{
    if entries.len() > 0 {
        let front = entries.drop_last();
        assert(entries.last().kid@ != kid);
        assert forall|j: int| 0 <= j < front.len() implies (#[trigger] front[j]).kid@ != kid by {
            assert(front[j] == entries[j]);
        }
        lemma_entries_map_absent(front, kid);
    }
}

/// Place of the last entry for `kid`, if there is one.
fn find_entry(entries: &Vec<KeyEntry>, kid: &String) -> (r: Option<usize>)
    ensures
        match r {
            Some(i) => last_match(entries@, kid@, i as int),
            None => no_match(entries@, kid@),
        },
{
    let mut i: usize = entries.len();
    while i > 0
        invariant
            i <= entries.len(),
            forall|j: int| i <= j < entries.len() ==> (#[trigger] entries@[j]).kid@ != kid@,
        decreases i,
    {
        i -= 1;
        if entries[i].kid == *kid {
            return Some(i);
        }
    }
    None
}

impl View for KeyCache {
    type V = Map<Seq<char>, RsaKeyView>;

    closed spec fn view(&self) -> Map<Seq<char>, RsaKeyView> {
        entries_map(self.entries@)
    }
}

impl KeyCache {
    /// A cache that holds no key.
    pub fn new() -> (cache: KeyCache)
        ensures
            cache@ == Map::<Seq<char>, RsaKeyView>::empty(),
    {
        KeyCache { entries: Vec::new() }
    }

    /// The cached key for `kid`, if there is one.
    pub fn lookup(&self, kid: &str) -> (r: Option<&RsaPublicKey>)
        ensures
            match r {
                Some(key) => self@.contains_key(kid@) && self@[kid@] == key@,
                None => !self@.contains_key(kid@),
            },
    {
        let wanted = String::from_str(kid);
        match find_entry(&self.entries, &wanted) {
            Some(i) => {
                proof {
                    lemma_entries_map_found(self.entries@, kid@, i as int);
                }
                Some(&self.entries[i].key)
            },
            None => {
                proof {
                    lemma_entries_map_absent(self.entries@, kid@);
                }
                None
            },
        }
    }
}

/// Whether one of the two lists holds an entry for `kid`.
fn is_cached(cached: &Vec<KeyEntry>, added: &Vec<KeyEntry>, kid: &String) -> (r: bool)
    ensures
        r == entries_map(cached@ + added@).contains_key(kid@),
{
    let ghost all = cached@ + added@;
    match find_entry(added, kid) {
        Some(i) => {
            proof {
                assert(all[cached@.len() + i] == added@[i as int]);
                assert forall|j: int| cached@.len() + i < j < all.len() implies (
                #[trigger] all[j]).kid@ != kid@ by {
                    assert(all[j] == added@[j - cached@.len()]);
                }
                lemma_entries_map_found(all, kid@, cached@.len() + i);
            }
            true
        },
        None => match find_entry(cached, kid) {
            Some(i) => {
                proof {
                    assert(all[i as int] == cached@[i as int]);
                    assert forall|j: int| i < j < all.len() implies (#[trigger] all[j]).kid@
                        != kid@ by {
                        if j < cached@.len() {
                            assert(all[j] == cached@[j]);
                        } else {
                            assert(all[j] == added@[j - cached@.len()]);
                        }
                    }
                    lemma_entries_map_found(all, kid@, i as int);
                }
                true
            },
            None => {
                proof {
                    assert forall|j: int| 0 <= j < all.len() implies (#[trigger] all[j]).kid@
                        != kid@ by {
                        if j < cached@.len() {
                            assert(all[j] == cached@[j]);
                        } else {
                            assert(all[j] == added@[j - cached@.len()]);
                        }
                    }
                    lemma_entries_map_absent(all, kid@);
                }
                false
            },
        },
    }
}

/// Decodes the modulus and the exponent of a published key.
fn decode_key(key: &CertKey) -> (r: Option<RsaPublicKey>)
    ensures
        match r {
            Some(decoded) => published_key(*key) == Some(decoded@),
            None => published_key(*key) is None,
        },
{
    let modulus = match base64url_decode(key.n.as_str().as_bytes()) {
        Ok(bytes) => bytes,
        Err(_) => {
            return None;
        },
    };
    let exponent = match base64url_decode(key.e.as_str().as_bytes()) {
        Ok(bytes) => bytes,
        Err(_) => {
            return None;
        },
    };
    if modulus.len() == 0 || exponent.len() == 0 {
        return None;
    }
    Some(RsaPublicKey { modulus, exponent })
}

/// Brings the cache up to date with the key set that the identity provider
/// published. Keys whose identifier is cached already are left as they are:
/// the cache only grows. If a new key cannot be decoded the refresh fails and
/// the cache is what it was.
pub fn update_cache(cache: &mut KeyCache, published: &Vec<CertKey>) -> (r: Result<(), FetchError>)
    ensures
        match refreshed(old(cache)@, published@) {
            Some(keys) => r is Ok && final(cache)@ == keys,
            None => r == Err::<(), FetchError>(FetchError::KeyMaterial) && final(cache)@ == old(
                cache,
            )@,
        },
{
    let mut added: Vec<KeyEntry> = Vec::new();
    let mut i: usize = 0;
    assert(cache.entries@ + added@ == cache.entries@);
    assert(published@.skip(0) == published@);
    while i < published.len()
        invariant
            i <= published.len(),
            cache.entries@ == old(cache).entries@,
            refreshed(old(cache)@, published@) == refreshed(
                entries_map(cache.entries@ + added@),
                published@.skip(i as int),
            ),
        decreases published.len() - i,
    {
        let key = &published[i];
        let ghost rest = published@.skip(i as int);
        assert(rest[0] == published@[i as int]);
        assert(rest.drop_first() == published@.skip(i + 1));
        if !is_cached(&cache.entries, &added, &key.kid) {
            match decode_key(key) {
                Some(decoded) => {
                    let ghost before = cache.entries@ + added@;
                    added.push(KeyEntry { kid: key.kid.clone(), key: decoded });
                    assert((cache.entries@ + added@).drop_last() == before);
                },
                None => {
                    return Err(FetchError::KeyMaterial);
                },
            }
        }
        i += 1;
    }
    cache.entries.append(&mut added);
    Ok(())
}

/// A refresh never replaces or drops a key that was cached.
pub proof fn lemma_refresh_keeps_cached(
    cache: Map<Seq<char>, RsaKeyView>,
    published: Seq<CertKey>,
    kid: Seq<char>,
)
    requires
        cache.contains_key(kid),
        refreshed(cache, published) is Some,
    ensures
        refreshed(cache, published)->0.contains_key(kid),
        refreshed(cache, published)->0[kid] == cache[kid],
    decreases published.len(),
{
    if published.len() > 0 {
        if cache.contains_key(published[0].kid@) {
            lemma_refresh_keeps_cached(cache, published.drop_first(), kid);
        } else {
            let key = published_key(published[0])->0;
            lemma_refresh_keeps_cached(
                cache.insert(published[0].kid@, key),
                published.drop_first(),
                kid,
            );
        }
    }
}

/// A refresh adds no entry for a key identifier that the provider does not
/// publish: a miss leaves nothing behind in the cache.
pub proof fn lemma_refresh_adds_only_published(
    cache: Map<Seq<char>, RsaKeyView>,
    published: Seq<CertKey>,
    kid: Seq<char>,
)
    requires
        !cache.contains_key(kid),
        !publishes(published, kid),
        refreshed(cache, published) is Some,
    ensures
        !refreshed(cache, published)->0.contains_key(kid),
    decreases published.len(),
{
    if published.len() > 0 {
        let rest = published.drop_first();
        assert(published[0].kid@ != kid);
        assert forall|i: int| 0 <= i < rest.len() implies (#[trigger] rest[i]).kid@ != kid by {
            assert(rest[i] == published[i + 1]);
        }
        if cache.contains_key(published[0].kid@) {
            lemma_refresh_adds_only_published(cache, rest, kid);
        } else {
            let key = published_key(published[0])->0;
            lemma_refresh_adds_only_published(cache.insert(published[0].kid@, key), rest, kid);
        }
    }
}

/// After a refresh that succeeded every published key identifier is cached.
pub proof fn lemma_refresh_caches_published(
    cache: Map<Seq<char>, RsaKeyView>,
    published: Seq<CertKey>,
    kid: Seq<char>,
)
    requires
        publishes(published, kid),
        refreshed(cache, published) is Some,
    ensures
        refreshed(cache, published)->0.contains_key(kid),
    decreases published.len(),
{
    let rest = published.drop_first();
    let i = choose|i: int| 0 <= i < published.len() && (#[trigger] published[i]).kid@ == kid;
    let next = if cache.contains_key(published[0].kid@) {
        cache
    } else {
        cache.insert(published[0].kid@, published_key(published[0])->0)
    };
    if next.contains_key(kid) {
        lemma_refresh_keeps_cached(next, rest, kid);
    } else {
        assert(rest[i - 1] == published[i]);
        lemma_refresh_caches_published(next, rest, kid);
    }
}

/// A refresh that succeeded changes nothing when it is made again with the
/// same key set.
pub proof fn lemma_refresh_idempotent(cache: Map<Seq<char>, RsaKeyView>, published: Seq<CertKey>)
    requires
        refreshed(cache, published) is Some,
    ensures
        refreshed(refreshed(cache, published)->0, published) == refreshed(cache, published),
{
    let after = refreshed(cache, published)->0;
    assert forall|i: int| 0 <= i < published.len() implies after.contains_key(
        (#[trigger] published[i]).kid@,
    ) by {
        lemma_refresh_caches_published(cache, published, published[i].kid@);
    }
    lemma_refresh_of_cached(after, published);
}

/// A refresh with a key set all of whose identifiers are cached changes
/// nothing.
pub proof fn lemma_refresh_of_cached(cache: Map<Seq<char>, RsaKeyView>, published: Seq<CertKey>)
    requires
        forall|i: int| 0 <= i < published.len() ==> cache.contains_key(
            (#[trigger] published[i]).kid@,
        ),
    ensures
        refreshed(cache, published) == Some(cache),
    decreases published.len(),
{
    if published.len() > 0 {
        let rest = published.drop_first();
        assert(cache.contains_key(published[0].kid@));
        assert forall|i: int| 0 <= i < rest.len() implies cache.contains_key(
            (#[trigger] rest[i]).kid@,
        ) by {
            assert(rest[i] == published[i + 1]);
        }
        lemma_refresh_of_cached(cache, rest);
    }
}

} // verus!
