//! Who the user is: the name carried in the payload of the stored identity
//! token (a compact `header.payload.signature` token whose payload is
//! base64url-encoded JSON with a `preferred_username` field).
use crate::error::CommandError;
use crate::models::OAuthTokens;
use crate::parser::opt_view;
use crate::text::{chars_of, lemma_split_on_len, push_char, split_bounds, split_on};
use vstd::prelude::*;

verus! {

/// The bytes that standard base64 decoding (with padding) gives for `s`, or
/// none when `s` is not valid standard base64.
pub uninterp spec fn base64_decoding(s: Seq<char>) -> Option<Seq<u8>>;

/// Relies on `base64::decode` (the standard alphabet, padding required): the
/// decoded bytes, or an error for input that is not valid; the outcome
/// depends on the input alone.
#[verifier::external_body]
#[allow(deprecated)]
fn decode_base64(s: &str) -> (r: Option<Vec<u8>>)
    ensures
        match r {
            Some(b) => base64_decoding(s@) == Some(b@),
            None => base64_decoding(s@) is None,
        },
{
    base64::decode(s).ok()
}

/// The string that the JSON document `doc` holds under `key` at its top
/// level, or none when `doc` is not JSON, is not an object, or holds no
/// string there.
pub uninterp spec fn json_string_member(doc: Seq<u8>, key: Seq<char>) -> Option<Seq<char>>;

/// Relies on `serde_json::from_slice` into a `serde_json::Value`, then
/// `Value::get` and `Value::as_str`: the string member `key` of the document,
/// if it parses and has one; the outcome depends on the input alone.
#[verifier::external_body]
fn json_string_field(doc: &[u8], key: &str) -> (r: Option<String>)
    ensures
        opt_view(r) == json_string_member(doc@, key@),
{
    match serde_json::from_slice::<serde_json::Value>(doc) {
        Ok(v) => v.get(key).and_then(serde_json::Value::as_str).map(String::from),
        Err(_) => None,
    }
}

/// A base64url character in the standard alphabet.
pub open spec fn standard_char(c: char) -> char {
    if c == '-' {
        '+'
    } else if c == '_' {
        '/'
    } else {
        c
    }
}

/// The `=` padding that an unpadded base64 text of `n` characters lacks.
pub open spec fn padding(n: nat) -> Seq<char> {
    if n % 4 == 2 {
        seq!['=', '=']
    } else if n % 4 == 3 {
        seq!['=']
    } else {
        seq![]
    }
}

/// A base64url text rewritten as padded standard base64.
pub open spec fn standard_form(s: Seq<char>) -> Seq<char> {
    s.map_values(|c: char| standard_char(c)) + padding(s.len())
}

/// The second `.`-separated segment of a token, if there is one.
pub open spec fn payload_segment(token: Seq<char>) -> Option<Seq<char>> {
    let ps = split_on(token, '.');
    if ps.len() >= 2 {
        Some(ps[1])
    } else {
        None
    }
}

/// The user name that an identity token carries.
pub open spec fn token_username(token: Seq<char>) -> Result<Seq<char>, CommandError> {
    match payload_segment(token) {
        None => Err(CommandError::MalformedIdentity),
        Some(seg) => match base64_decoding(standard_form(seg)) {
            None => Err(CommandError::MalformedIdentity),
            Some(doc) => match json_string_member(doc, "preferred_username"@) {
                None => Err(CommandError::MalformedIdentity),
                Some(name) => Ok(name),
            },
        },
    }
}

/// The user name of stored credentials.
pub open spec fn identity_of(tokens: Option<Seq<char>>, has_tokens: bool) -> Result<
    Seq<char>,
    CommandError,
> {
    if !has_tokens {
        Err(CommandError::NoSession)
    } else {
        match tokens {
            None => Err(CommandError::MissingIdentity),
            Some(t) => token_username(t),
        }
    }
}

pub open spec fn opt_tokens_id(tokens: Option<&OAuthTokens>) -> Option<Seq<char>> {
    match tokens {
        Some(t) => opt_view(t.id_token),
        None => None,
    }
}

pub open spec fn result_view(r: Result<String, CommandError>) -> Result<Seq<char>, CommandError> {
    match r {
        Ok(s) => Ok(s@),
        Err(e) => Err(e),
    }
}

fn standard_base64(v: &[char], from: usize, to: usize) -> (r: String)
    requires
        from <= to <= v@.len(),
    ensures
        r@ == standard_form(v@.subrange(from as int, to as int)),
{
    let ghost s = v@.subrange(from as int, to as int);
    let mut r = String::new();
    let mut i: usize = from;
    while i < to
        invariant
            from <= i <= to <= v@.len(),
            s == v@.subrange(from as int, to as int),
            r@ == s.subrange(0, i - from).map_values(|c: char| standard_char(c)),
        decreases to - i,
    {
        let c = v[i];
        let d = if c == '-' {
            '+'
        } else if c == '_' {
            '/'
        } else {
            c
        };
        push_char(&mut r, d);
        assert(s.subrange(0, i + 1 - from) =~= s.subrange(0, i - from).push(c));
        assert(s.subrange(0, i + 1 - from).map_values(|c: char| standard_char(c)) =~= s.subrange(
            0,
            i - from,
        ).map_values(|c: char| standard_char(c)).push(d));
        i = i + 1;
    }
    assert(s.subrange(0, to - from) =~= s);
    let ghost mapped = r@;
    let n = to - from;
    if n % 4 == 2 {
        push_char(&mut r, '=');
        push_char(&mut r, '=');
        assert(r@ =~= mapped + padding(s.len()));
    } else if n % 4 == 3 {
        push_char(&mut r, '=');
        assert(r@ =~= mapped + padding(s.len()));
    } else {
        assert(r@ =~= mapped + padding(s.len()));
    }
    r
}

/// The user name that an identity token carries: its second `.`-separated
/// segment, base64url-decoded, must be a JSON object with a string
/// `preferred_username`; anything else is `MalformedIdentity`.
pub fn username_from_token(token: &str) -> (r: Result<String, CommandError>)
    ensures
        result_view(r) == token_username(token@),
{
    let v = chars_of(token);
    let n = v.len();
    assert(v@.subrange(0, n as int) =~= v@);
    proof {
        lemma_split_on_len(v@, '.');
    }
    let bounds = split_bounds(v.as_slice(), 0, n, '.');
    if bounds.len() < 2 {
        return Err(CommandError::MalformedIdentity);
    }
    let (a, b) = bounds[1];
    let text = standard_base64(v.as_slice(), a, b);
    match decode_base64(text.as_str()) {
        None => Err(CommandError::MalformedIdentity),
        Some(doc) => match json_string_field(doc.as_slice(), "preferred_username") {
            None => Err(CommandError::MalformedIdentity),
            Some(name) => Ok(name),
        },
    }
}

/// The user name of the stored credentials: `NoSession` when there are
/// none, `MissingIdentity` when they carry no identity token, otherwise what
/// `username_from_token` says of that token.
pub fn current_user(tokens: Option<&OAuthTokens>) -> (r: Result<String, CommandError>)
    ensures
        result_view(r) == identity_of(opt_tokens_id(tokens), tokens is Some),
{
    match tokens {
        None => Err(CommandError::NoSession),
        Some(t) => match &t.id_token {
            None => Err(CommandError::MissingIdentity),
            Some(id) => username_from_token(id.as_str()),
        },
    }
}

} // verus!
