//! Format checks for usernames and session tokens.

use vstd::prelude::*;

verus! {

/// A username may contain ASCII letters, digits, `_`, `.` and `-`.
pub open spec fn valid_username_char(c: char) -> bool {
    ('a' <= c && c <= 'z') || ('A' <= c && c <= 'Z') || ('0' <= c && c <= '9') || c == '_'
        || c == '.' || c == '-'
}

/// A session token may contain ASCII letters and digits only.
pub open spec fn valid_token_char(c: char) -> bool {
    ('a' <= c && c <= 'z') || ('A' <= c && c <= 'Z') || ('0' <= c && c <= '9')
}

/// A valid username is 3 to 18 characters long, all from the username alphabet.
pub open spec fn spec_valid_username(s: Seq<char>) -> bool {
    &&& 3 <= s.len() <= 18
    &&& forall|i: int| 0 <= i < s.len() ==> valid_username_char(#[trigger] s[i])
}

/// A valid session token is exactly 256 characters long, all alphanumeric.
pub open spec fn spec_valid_token(s: Seq<char>) -> bool {
    &&& s.len() == 256
    &&& forall|i: int| 0 <= i < s.len() ==> valid_token_char(#[trigger] s[i])
}

/// Decides whether `username` has a valid format: length 3 to 18 and only
/// ASCII letters, digits, `_`, `.` or `-`.
pub fn validate_username(username: &str) -> (r: bool)
    ensures
        r == spec_valid_username(username@),
{
    let n = username.unicode_len();
    if n < 3 || n > 18 {
        return false;
    }
    let mut i: usize = 0;
    while i < n
        invariant
            0 <= i <= n,
            n == username@.len(),
            forall|j: int| 0 <= j < i ==> valid_username_char(#[trigger] username@[j]),
        decreases n - i,
    {
        let c = username.get_char(i);
        let ok = ('a' <= c && c <= 'z') || ('A' <= c && c <= 'Z') || ('0' <= c && c <= '9')
            || c == '_' || c == '.' || c == '-';
        if !ok {
            return false;
        }
        i = i + 1;
    }
    true
}

/// Decides whether `session_token` has a valid format: exactly 256
/// alphanumeric ASCII characters.
pub fn validate_session_token(session_token: &str) -> (r: bool)
    ensures
        r == spec_valid_token(session_token@),
{
    let n = session_token.unicode_len();
    if n != 256 {
        return false;
    }
    let mut i: usize = 0;
    while i < n
        invariant
            0 <= i <= n,
            n == session_token@.len(),
            forall|j: int| 0 <= j < i ==> valid_token_char(#[trigger] session_token@[j]),
        decreases n - i,
    {
        let c = session_token.get_char(i);
        let ok = ('a' <= c && c <= 'z') || ('A' <= c && c <= 'Z') || ('0' <= c && c <= '9');
        if !ok {
            return false;
        }
        i = i + 1;
    }
    true
}

} // verus!
