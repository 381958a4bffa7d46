use crate::auth::{TokenHeader, User};
use base64::Engine;
use vstd::prelude::*;
use vstd::slice::{slice_subrange, slice_to_vec};
use vstd::string::StringSliceAdditionalSpecFns;

verus! {

/// The byte that separates the segments of a compact token.
pub const DOT: u8 = 46;

/// Offset of the first separator in `s`, or the length of `s` if it holds none.
pub open spec fn first_dot(s: Seq<u8>) -> int
    decreases s.len(),
{
    if s.len() == 0 || s[0] == DOT {
        0
    } else {
        1 + first_dot(s.drop_first())
    }
}

/// Whether `s` holds a separator.
pub open spec fn has_dot(s: Seq<u8>) -> bool {
    first_dot(s) < s.len()
}

/// What stands before the first separator of `s`: all of `s` if it holds none.
pub open spec fn head_segment(s: Seq<u8>) -> Seq<u8> {
    s.take(first_dot(s))
}

/// What follows the first separator of `s`.
pub open spec fn after_dot(s: Seq<u8>) -> Seq<u8>
    recommends
        has_dot(s),
{
    s.skip(first_dot(s) + 1)
}

/// A token can be split when it holds at least two separators, hence three
/// segments. Whatever follows a third separator is ignored.
pub open spec fn has_three_segments(token: Seq<u8>) -> bool {
    has_dot(token) && has_dot(after_dot(token))
}

/// The first segment of a token, as it came.
pub open spec fn header_segment(token: Seq<u8>) -> Seq<u8> {
    head_segment(token)
}

/// The second segment of a token, as it came.
pub open spec fn payload_segment(token: Seq<u8>) -> Seq<u8> {
    head_segment(after_dot(token))
}

/// The third segment of a token, as it came: it ends at a third separator,
/// if there is one.
pub open spec fn signature_segment(token: Seq<u8>) -> Seq<u8> {
    head_segment(after_dot(after_dot(token)))
}

/// `first_dot` is the least offset of a separator.
pub proof fn lemma_first_dot(s: Seq<u8>)
    ensures
        0 <= first_dot(s) <= s.len(),
        forall|j: int| 0 <= j < first_dot(s) ==> s[j] != DOT,
        first_dot(s) < s.len() ==> s[first_dot(s)] == DOT,
    decreases s.len(),
{
    if s.len() == 0 || s[0] == DOT {
    } else {
        let t = s.drop_first();
        lemma_first_dot(t);
        assert forall|j: int| 0 <= j < first_dot(s) implies s[j] != DOT by {
            if j > 0 {
                assert(s[j] == t[j - 1]);
            }
        }
        assert(first_dot(s) < s.len() ==> s[first_dot(s)] == t[first_dot(t)]);
    }
}

/// An offset before which no separator stands, and which holds one or ends
/// `s`, is `first_dot(s)`.
pub proof fn lemma_first_dot_unique(s: Seq<u8>, k: int)
    requires
        0 <= k <= s.len(),
        forall|j: int| 0 <= j < k ==> s[j] != DOT,
        k < s.len() ==> s[k] == DOT,
    ensures
        first_dot(s) == k,
{
    lemma_first_dot(s);
    if first_dot(s) < k {
        assert(s[first_dot(s)] != DOT);
    }
}

/// What base64url decoding without padding yields for `input`: the decoded
/// bytes, or `None` where the decoder rejects the input.
pub uninterp spec fn base64url_decoded(input: Seq<u8>) -> Option<Seq<u8>>;

/// The error of the `base64` crate's decoder. The library only tells it from
/// success.
#[verifier::external_type_specification]
#[verifier::external_body]
pub struct ExDecodeError(base64::DecodeError);

/// Calls `Engine::decode` of the `base64` crate on its `URL_SAFE_NO_PAD`
/// engine. The contract names what that call returns for these input bytes
/// and claims nothing else of it.
#[verifier::external_body]
pub(crate) fn base64url_decode(input: &[u8]) -> (r: Result<Vec<u8>, base64::DecodeError>)
    ensures
        r matches Ok(bytes) ==> base64url_decoded(input@) == Some(bytes@),
        r is Err ==> base64url_decoded(input@) is None,
{
    base64::engine::general_purpose::URL_SAFE_NO_PAD.decode(input)
}

/// The one reason for which a token is refused before verification: it is not
/// made of three base64url segments that decode to a header, a claim set and a
/// signature.
#[derive(Debug, Clone, Copy, PartialEq, Eq, Structural)]
pub struct MalformedToken;

/// The three segments of a token, each decoded: the raw header and payload
/// segments as they were signed, the bytes that they encode, and the
/// signature.
#[derive(Debug, Clone)]
pub struct TokenSegments {
    pub header_64: Vec<u8>,
    pub header_json: Vec<u8>,
    pub payload_64: Vec<u8>,
    pub payload_json: Vec<u8>,
    pub signature: Vec<u8>,
}

/// A token can be taken apart when it has three segments and each of them is
/// base64url without padding.
pub open spec fn well_framed(token: Seq<u8>) -> bool {
    &&& has_three_segments(token)
    &&& base64url_decoded(header_segment(token)) is Some
    &&& base64url_decoded(payload_segment(token)) is Some
    &&& base64url_decoded(signature_segment(token)) is Some
}

/// What `segments` must hold to be the segments of `token`.
pub open spec fn segments_of(token: Seq<u8>, segments: TokenSegments) -> bool {
    &&& segments.header_64@ == header_segment(token)
    &&& Some(segments.header_json@) == base64url_decoded(header_segment(token))
    &&& segments.payload_64@ == payload_segment(token)
    &&& Some(segments.payload_json@) == base64url_decoded(payload_segment(token))
    &&& Some(segments.signature@) == base64url_decoded(signature_segment(token))
}

/// End of the segment of `s` that starts at `from`.
fn segment_end(s: &[u8], from: usize) -> (end: usize)
    requires
        from <= s.len(),
    ensures
        end == from + first_dot(s@.skip(from as int)),
        from <= end <= s.len(),
{
    let mut end = from;
    while end < s.len() && s[end] != DOT
        invariant
            from <= end <= s.len(),
            forall|j: int| from <= j < end ==> s@[j] != DOT,
        decreases s.len() - end,
    {
        end += 1;
    }
    proof {
        lemma_first_dot_unique(s@.skip(from as int), end - from);
    }
    end
}

/// Splits the bytes of a compact token at its separators and decodes its
/// three segments.
pub fn split_segments(bytes: &[u8]) -> (r: Result<TokenSegments, MalformedToken>)
    ensures
        r matches Ok(segments) ==> well_framed(bytes@) && segments_of(bytes@, segments),
        r is Err ==> !well_framed(bytes@),
{
    let ghost t = bytes@;
    let header_end = segment_end(bytes, 0);
    assert(t.skip(0) == t);
    if header_end == bytes.len() {
        return Err(MalformedToken);
    }
    let payload_start = header_end + 1;
    let payload_end = segment_end(bytes, payload_start);
    if payload_end == bytes.len() {
        return Err(MalformedToken);
    }
    let signature_start = payload_end + 1;
    let signature_end = segment_end(bytes, signature_start);
    let header_64 = slice_subrange(bytes, 0, header_end);
    let payload_64 = slice_subrange(bytes, payload_start, payload_end);
    let signature_64 = slice_subrange(bytes, signature_start, signature_end);
    proof {
        let rest = after_dot(t);
        assert(rest == t.skip(payload_start as int));
        assert(after_dot(rest) == t.skip(signature_start as int));
        assert(header_64@ == header_segment(t));
        assert(payload_64@ == payload_segment(t));
        assert(signature_64@ == signature_segment(t));
    }
    let header_json = match base64url_decode(header_64) {
        Ok(bytes) => bytes,
        Err(_) => {
            return Err(MalformedToken);
        },
    };
    let payload_json = match base64url_decode(payload_64) {
        Ok(bytes) => bytes,
        Err(_) => {
            return Err(MalformedToken);
        },
    };
    let signature = match base64url_decode(signature_64) {
        Ok(bytes) => bytes,
        Err(_) => {
            return Err(MalformedToken);
        },
    };
    Ok(
        TokenSegments {
            header_64: slice_to_vec(header_64),
            header_json,
            payload_64: slice_to_vec(payload_64),
            payload_json,
            signature,
        },
    )
}

/// Splits a compact token at its separators and decodes its three segments.
pub fn token_segments(token: &str) -> (r: Result<TokenSegments, MalformedToken>)
    ensures
        r matches Ok(segments) ==> well_framed(token.spec_bytes()) && segments_of(
            token.spec_bytes(),
            segments,
        ),
        r is Err ==> !well_framed(token.spec_bytes()),
{
    split_segments(token.as_bytes())
}

/// The word that may stand before the token in an authorization header, with
/// its blank: `Bearer `.
pub open spec fn bearer_prefix() -> Seq<u8> {
    seq![66u8, 101u8, 97u8, 114u8, 101u8, 114u8, 32u8]
}

/// Whether `value` starts with the prefix.
pub open spec fn has_bearer_prefix(value: Seq<u8>) -> bool {
    value.len() >= 7 && value.take(7) == bearer_prefix()
}

/// The token in the value of an authorization header: the value without the
/// prefix, as often as the prefix stands at its start.
pub open spec fn bearer_token(value: Seq<u8>) -> Seq<u8>
    decreases value.len(),
{
    if has_bearer_prefix(value) {
        bearer_token(value.skip(7))
    } else {
        value
    }
}

fn starts_with_bearer(bytes: &[u8], from: usize) -> (r: bool)
    requires
        from <= bytes.len(),
    ensures
        r == has_bearer_prefix(bytes@.skip(from as int)),
{
    let ghost rest = bytes@.skip(from as int);
    if bytes.len() - from < 7 {
        return false;
    }
    let r = bytes[from] == 66 && bytes[from + 1] == 101 && bytes[from + 2] == 97 && bytes[from
        + 3] == 114 && bytes[from + 4] == 101 && bytes[from + 5] == 114 && bytes[from + 6] == 32;
    proof {
        let p = bearer_prefix();
        let head = rest.take(7);
        assert(head[0] == bytes@[from as int]);
        assert(head[1] == bytes@[from + 1]);
        assert(head[2] == bytes@[from + 2]);
        assert(head[3] == bytes@[from + 3]);
        assert(head[4] == bytes@[from + 4]);
        assert(head[5] == bytes@[from + 5]);
        assert(head[6] == bytes@[from + 6]);
        if r {
            assert(head =~= p);
        } else {
            assert(head != p);
        }
    }
    r
}

/// The token in the value of an authorization header.
pub fn strip_bearer(value: &[u8]) -> (token: &[u8])
    ensures
        token@ == bearer_token(value@),
{
    let mut from: usize = 0;
    assert(value@.skip(0) == value@);
    while starts_with_bearer(value, from)
        invariant
            from <= value.len(),
            bearer_token(value@) == bearer_token(value@.skip(from as int)),
        decreases value.len() - from,
    {
        assert(value@.skip(from as int).skip(7) == value@.skip(from + 7));
        from += 7;
    }
    slice_subrange(value, from, value.len())
}

/// A decoded token: its header and claims, the raw segments that were signed,
/// and the signature.
#[derive(Debug, Clone)]
pub struct TokenPieces {
    pub header: TokenHeader,
    pub header_64: Vec<u8>,
    pub claims: User,
    pub payload_64: Vec<u8>,
    pub signature: Vec<u8>,
}

/// Completes the decoding of a token with the header and the claims that were
/// read from the decoded segments: `None` for one that did not have the
/// expected shape. Nothing is returned of a token one part of which is
/// missing.
pub fn get_token_pieces(
    segments: TokenSegments,
    header: Option<TokenHeader>,
    claims: Option<User>,
) -> (r: Result<TokenPieces, MalformedToken>)
    ensures
        r is Ok <==> header is Some && claims is Some,
        r matches Ok(pieces) ==> {
            &&& Some(pieces.header) == header
            &&& Some(pieces.claims) == claims
            &&& pieces.header_64 == segments.header_64
            &&& pieces.payload_64 == segments.payload_64
            &&& pieces.signature == segments.signature
        },
{
    match (header, claims) {
        (Some(header), Some(claims)) => Ok(
            TokenPieces {
                header,
                header_64: segments.header_64,
                claims,
                payload_64: segments.payload_64,
                signature: segments.signature,
            },
        ),
        _ => Err(MalformedToken),
    }
}

} // verus!
