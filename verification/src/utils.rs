use vstd::prelude::*;

verus! {

/// Longest user name, in bytes of its UTF-8 form, that the directory accepts.
pub const MAX_USERNAME_BYTES: usize = 32;

/// Whether `c` is an ASCII letter or digit.
pub open spec fn is_ascii_alphanumeric(c: char) -> bool {
    ||| '0' <= c <= '9'
    ||| 'a' <= c <= 'z'
    ||| 'A' <= c <= 'Z'
}

/// A user name is valid when its UTF-8 form has at most
/// [`MAX_USERNAME_BYTES`] bytes and at least one of its characters is an
/// ASCII letter or digit.
pub open spec fn valid_username(name: Seq<char>) -> bool {
    &&& vstd::utf8::encode_utf8(name).len() <= MAX_USERNAME_BYTES
    &&& exists|i: int| 0 <= i < name.len() && is_ascii_alphanumeric(#[trigger] name[i])
}

fn char_is_ascii_alphanumeric(c: char) -> (r: bool)
    ensures
        r == is_ascii_alphanumeric(c),
{
    ('0' <= c && c <= '9') || ('a' <= c && c <= 'z') || ('A' <= c && c <= 'Z')
}

/// Whether `username` can be the name of a user.
pub fn is_valid_username(username: &str) -> (r: bool)
    ensures
        r == valid_username(username@),
{
    if username.as_bytes().len() > MAX_USERNAME_BYTES {
        return false;
    }
    let n = username.unicode_len();
    let mut i: usize = 0;
    while i < n
        invariant
            n == username@.len(),
            i <= n,
            vstd::utf8::encode_utf8(username@).len() <= MAX_USERNAME_BYTES,
            forall|j: int| 0 <= j < i ==> !is_ascii_alphanumeric(#[trigger] username@[j]),
        decreases n - i,
    {
        if char_is_ascii_alphanumeric(username.get_char(i)) {
            assert(is_ascii_alphanumeric(username@[i as int]));
            return true;
        }
        i += 1;
    }
    false
}

} // verus!
