use vstd::prelude::*;

verus! {

/// Byte values of the wildcard metasymbols.
pub open spec fn star() -> u8 { 42u8 }

pub open spec fn question() -> u8 { 63u8 }

pub open spec fn backslash() -> u8 { 92u8 }

/// A wildcard pattern is valid when every `\` escapes one of `*`, `?`, `\`.
pub open spec fn wildcard_valid(p: Seq<u8>) -> bool
    decreases p.len(),
{
    if p.len() == 0 {
        true
    } else if p[0] == backslash() {
        &&& p.len() >= 2
        &&& (p[1] == star() || p[1] == question() || p[1] == backslash())
        &&& wildcard_valid(p.skip(2))
    } else {
        wildcard_valid(p.skip(1))
    }
}

/// Which inputs a wildcard pattern matches: `*` any sequence, `?` any one
/// symbol, `\x` the symbol `x`, every other symbol itself; the whole input
/// must be matched.
pub open spec fn wildcard_matches(p: Seq<u8>, s: Seq<u8>) -> bool
    decreases p.len(), s.len(),
{
    if p.len() == 0 {
        s.len() == 0
    } else if p[0] == backslash() {
        &&& p.len() >= 2
        &&& s.len() > 0
        &&& s[0] == p[1]
        &&& wildcard_matches(p.skip(2), s.skip(1))
    } else if p[0] == star() {
        ||| wildcard_matches(p.skip(1), s)
        ||| (s.len() > 0 && wildcard_matches(p, s.skip(1)))
    } else if p[0] == question() {
        s.len() > 0 && wildcard_matches(p.skip(1), s.skip(1))
    } else {
        &&& s.len() > 0
        &&& s[0] == p[0]
        &&& wildcard_matches(p.skip(1), s.skip(1))
    }
}

/// Matches `input` against the wildcard `pattern` with the `wildcard` crate:
/// `Wildcard::new(pattern)` (default configuration: `*`, `?`, escape `\`,
/// case-sensitive), then `is_match(input)`.  Claimed: `Wildcard::new`
/// accepts exactly the patterns of `wildcard_valid` (`None` for the others),
/// and `is_match` decides `wildcard_matches`, as the crate's documentation
/// and its tests against an anchored regular expression built from the same
/// tokens describe it.
#[verifier::external_body]
pub(crate) fn wildcard_match(pattern: &[u8], input: &[u8]) -> (r: Option<bool>)
    ensures
        r is Some <==> wildcard_valid(pattern@),
        r matches Some(b) ==> b == wildcard_matches(pattern@, input@),
{
    match wildcard::Wildcard::new(pattern) {
        Ok(w) => Some(w.is_match(input)),
        Err(_) => None,
    }
}

/// Whether `regex::Regex::new` accepts a pattern.
pub uninterp spec fn regex_compiles(pattern: Seq<char>) -> bool;

/// What `regex::Regex::is_match` answers for a compiled pattern and a text.
pub uninterp spec fn regex_finds(pattern: Seq<char>, text: Seq<char>) -> bool;

/// Compiles `pattern` with `regex::Regex::new` and, when it compiles, asks
/// `Regex::is_match` about `text`.  Claimed: `None` exactly when the pattern
/// does not compile, otherwise the answer of `is_match`; both are named, not
/// described.
#[verifier::external_body]
pub(crate) fn regex_search(pattern: &str, text: &str) -> (r: Option<bool>)
    ensures
        r is Some <==> regex_compiles(pattern@),
        r matches Some(b) ==> b == regex_finds(pattern@, text@),
{
    match regex::Regex::new(pattern) {
        Ok(re) => Some(re.is_match(text)),
        Err(_) => None,
    }
}

/// Whether `pattern` compiles and finds a match in `text`; a pattern that
/// does not compile finds nothing.
pub open spec fn regex_hits(pattern: Seq<char>, text: Seq<char>) -> bool {
    regex_compiles(pattern) && regex_finds(pattern, text)
}

/// Searches `text` with the regular expression `pattern`; a pattern that does
/// not compile gives `false`.
pub fn regex_is_match(pattern: &str, text: &str) -> (r: bool)
    ensures
        r == regex_hits(pattern@, text@),
{
    match regex_search(pattern, text) {
        Some(b) => b,
        None => false,
    }
}

/// The Unicode uppercase form of a string, as `str::to_uppercase` gives it.
pub uninterp spec fn uppercase_of(s: Seq<char>) -> Seq<char>;

/// `str::to_uppercase`.  Claimed: the result is the name `uppercase_of` of
/// the argument; nothing more is said of it.
#[verifier::external_body]
pub(crate) fn to_uppercase(s: &str) -> (r: String)
    ensures
        r@ == uppercase_of(s@),
{
    s.to_uppercase()
}

} // verus!
