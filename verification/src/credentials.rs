//! Reading the user name and password out of the encoded part of a basic
//! authentication header.

use base64::Engine;
use vstd::prelude::*;
use vstd::string::{StrSliceExecFns, StringExecFns};
use vstd::utf8::{decode_utf8, encode_utf8, encode_utf8_decode_utf8, encode_utf8_valid_utf8, valid_utf8};

verus! {

/// What the URL-safe, padded base64 engine of the `base64` crate decodes the
/// text to; `None` when it refuses the text.
pub uninterp spec fn url_safe_decode(encoded: Seq<char>) -> Option<Seq<u8>>;

/// Calls `base64::engine::general_purpose::URL_SAFE.decode` on the bytes of the
/// text. The contract names the outcome `url_safe_decode`: the decoded bytes,
/// or `None` where the crate returns a `DecodeError`.
#[verifier::external_body]
fn decode_url_safe(encoded: &str) -> (decoded: Option<Vec<u8>>)
    ensures
        match decoded {
            Some(bytes) => url_safe_decode(encoded@) == Some(bytes@),
            None => url_safe_decode(encoded@) is None,
        },
{
    base64::engine::general_purpose::URL_SAFE.decode(encoded).ok()
}

/// Calls `std::str::from_utf8`, which succeeds exactly on valid UTF-8 and then
/// views the same bytes as text.
#[verifier::external_body]
fn utf8_text(bytes: &[u8]) -> (text: Option<&str>)
    ensures
        text is Some <==> valid_utf8(bytes@),
        text matches Some(t) ==> encode_utf8(t@) == bytes@,
{
    std::str::from_utf8(bytes).ok()
}

/// The text that decoded bytes carry: the characters they encode when they are
/// valid UTF-8, and the empty text otherwise.
pub open spec fn credential_text(decoded: Seq<u8>) -> Seq<char> {
    if valid_utf8(decoded) {
        decode_utf8(decoded)
    } else {
        Seq::empty()
    }
}

/// Position `i` holds the only `:` of the text.
pub open spec fn is_sole_separator(text: Seq<char>, i: int) -> bool {
    &&& 0 <= i < text.len()
    &&& text[i] == ':'
    &&& forall|j: int| 0 <= j < text.len() && j != i ==> text[j] != ':'
}

/// The text split at `:` when it falls into exactly two parts, that is when it
/// holds exactly one `:`.
pub open spec fn split_credentials(text: Seq<char>) -> Option<(Seq<char>, Seq<char>)> {
    if exists|i: int| is_sole_separator(text, i) {
        let i = choose|i: int| is_sole_separator(text, i);
        Some((text.subrange(0, i), text.subrange(i + 1, text.len() as int)))
    } else {
        None
    }
}

/// The user name and password that decoded bytes carry, if any.
pub open spec fn credentials_in(decoded: Seq<u8>) -> Option<(Seq<char>, Seq<char>)> {
    split_credentials(credential_text(decoded))
}

/// The user name and password that an encoded header part carries: a text that
/// does not decode counts as empty.
pub open spec fn credentials_of(encoded: Seq<char>) -> Option<(Seq<char>, Seq<char>)> {
    match url_safe_decode(encoded) {
        Some(decoded) => credentials_in(decoded),
        None => credentials_in(Seq::empty()),
    }
}

/// A user name and a password.
pub struct Credentials {
    pub username: String,
    pub password: String,
}

/// `found` is the outcome that `expected` describes.
pub open spec fn matches_credentials(
    found: Option<Credentials>,
    expected: Option<(Seq<char>, Seq<char>)>,
) -> bool {
    match expected {
        Some((user, pass)) => found matches Some(c) && c.username@ == user && c.password@ == pass,
        None => found is None,
    }
}

/// Splits a text at its only `:`; `None` unless it holds exactly one.
pub fn split_at_sole_colon(text: &str) -> (parts: Option<Credentials>)
    ensures
        matches_credentials(parts, split_credentials(text@)),
{
    let n = text.unicode_len();
    let mut first: usize = 0;
    while first < n && text.get_char(first) != ':'
        invariant
            first <= n,
            n == text@.len(),
            forall|j: int| 0 <= j < first ==> text@[j] != ':',
        decreases n - first,
    {
        first += 1;
    }
    if first == n {
        assert(!exists|i: int| is_sole_separator(text@, i));
        return None;
    }
    let mut k: usize = first + 1;
    while k < n && text.get_char(k) != ':'
        invariant
            first < k <= n,
            n == text@.len(),
            forall|j: int| first < j < k ==> text@[j] != ':',
        decreases n - k,
    {
        k += 1;
    }
    if k < n {
        assert forall|i: int| !is_sole_separator(text@, i) by {
            if is_sole_separator(text@, i) {
                if i == first as int {
                    assert(text@[k as int] == ':');
                } else {
                    assert(text@[first as int] == ':');
                }
            }
        }
        return None;
    }
    assert(is_sole_separator(text@, first as int));
    assert forall|i: int| is_sole_separator(text@, i) implies i == first as int by {
        if i != first as int {
            assert(text@[first as int] == ':');
        }
    }
    let username = String::from_str(text.substring_char(0, first));
    let password = String::from_str(text.substring_char(first + 1, n));
    Some(Credentials { username, password })
}

/// The user name and password carried by decoded bytes: their UTF-8 text
/// (empty when they are not UTF-8), split at its only `:`.
pub fn credentials_from_decoded(decoded: &[u8]) -> (found: Option<Credentials>)
    ensures
        matches_credentials(found, credentials_in(decoded@)),
{
    match utf8_text(decoded) {
        Some(text) => {
            proof {
                encode_utf8_decode_utf8(text@);
            }
            split_at_sole_colon(text)
        },
        None => {
            let empty = String::new();
            split_at_sole_colon(empty.as_str())
        },
    }
}

/// The user name and password carried by the encoded part of a basic
/// authentication header.
pub fn parse_credentials(encoded: &str) -> (found: Option<Credentials>)
    ensures
        matches_credentials(found, credentials_of(encoded@)),
{
    let decoded: Vec<u8> = match decode_url_safe(encoded) {
        Some(bytes) => bytes,
        None => Vec::new(),
    };
    credentials_from_decoded(decoded.as_slice())
}

/// Joining a user name and a password with `:` and splitting again gives them
/// back exactly when neither holds a `:`.
pub proof fn credentials_round_trip(username: Seq<char>, password: Seq<char>)
    ensures
        split_credentials(username + seq![':'] + password) == (if !username.contains(':')
            && !password.contains(':') {
            Some((username, password))
        } else {
            None
        }),
{
    let text = username + seq![':'] + password;
    let at = username.len() as int;
    assert(text[at] == ':');
    if !username.contains(':') && !password.contains(':') {
        assert forall|j: int| 0 <= j < text.len() && j != at implies text[j] != ':' by {
            if j < at {
                assert(text[j] == username[j]);
            } else {
                assert(text[j] == password[j - at - 1]);
            }
        }
        assert(is_sole_separator(text, at));
        assert forall|i: int| is_sole_separator(text, i) implies i == at by {}
        assert(text.subrange(0, at) =~= username);
        assert(text.subrange(at + 1, text.len() as int) =~= password);
    } else {
        assert forall|i: int| !is_sole_separator(text, i) by {
            if is_sole_separator(text, i) {
                if username.contains(':') {
                    let j = choose|j: int| 0 <= j < username.len() && username[j] == ':';
                    assert(text[j] == ':');
                } else {
                    let j = choose|j: int| 0 <= j < password.len() && password[j] == ':';
                    assert(text[at + 1 + j] == ':');
                }
            }
        }
    }
}

/// Credentials sent as the UTF-8 bytes of `name:password` are read back as
/// that name and password, provided neither holds a `:`.
pub proof fn encoded_credentials_are_read_back(username: Seq<char>, password: Seq<char>)
    requires
        !username.contains(':'),
        !password.contains(':'),
    ensures
        credentials_in(encode_utf8(username + seq![':'] + password)) == Some((username, password)),
{
    let text = username + seq![':'] + password;
    encode_utf8_valid_utf8(text);
    encode_utf8_decode_utf8(text);
    credentials_round_trip(username, password);
}

} // verus!
