//! The calls this library makes into code it does not verify: `regex`,
//! `chrono` and one method of std's `String`. Each item's contract is
//! trusted; its doc comment says what is claimed.
use vstd::prelude::*;

verus! {

/// `String::push`: appends one character at the end of the string, as std
/// documents.
#[verifier::external_body]
pub(crate) fn push_char(s: &mut String, c: char)
    ensures
        final(s)@ == old(s)@.push(c),
{
    s.push(c);
}

} // verus!

verus! {

/// What `regex` gives for `pattern` on `haystack`: `None` when the pattern
/// does not compile, `Some(None)` when it does not match, otherwise the
/// capture groups in order (group 0 first), each `None` when it did not take
/// part in the match.
pub uninterp spec fn regex_captures_of(pattern: Seq<char>, haystack: Seq<char>) -> Option<
    Option<Seq<Option<Seq<char>>>>,
>;

/// The pattern that project names must match.
pub open spec fn project_name_pattern() -> Seq<char> {
    "^[A-Za-z0-9._-]{1,64}$"@
}

/// An ASCII letter, an ASCII digit, `.`, `_` or `-`.
pub open spec fn is_project_char(c: char) -> bool {
    let u = c as u32;
    ||| 65 <= u <= 90
    ||| 97 <= u <= 122
    ||| 48 <= u <= 57
    ||| c == '.'
    ||| c == '_'
    ||| c == '-'
}

/// Between 1 and 64 characters, each a project character.
pub open spec fn is_project_charset_name(s: Seq<char>) -> bool {
    &&& 1 <= s.len() <= 64
    &&& forall|i: int| 0 <= i < s.len() ==> is_project_char(#[trigger] s[i])
}

pub open spec fn groups_view(g: Seq<Option<String>>) -> Seq<Option<Seq<char>>> {
    g.map_values(|o: Option<String>| match o {
        Some(x) => Some(x@),
        None => None,
    })
}

pub open spec fn captures_view(r: Option<Option<Vec<Option<String>>>>) -> Option<
    Option<Seq<Option<Seq<char>>>>,
> {
    match r {
        Some(Some(g)) => Some(Some(groups_view(g@))),
        Some(None) => Some(None),
        None => None,
    }
}

/// `regex::Regex::new(pattern)` followed by `Regex::captures(haystack)`, the
/// groups taken as owned strings in the order `Captures::iter` yields them.
/// Claimed: the result is `regex_captures_of` of the arguments; and for the
/// project-name pattern (anchored at both ends, one class of ASCII letters,
/// digits, `.`, `_`, `-`, repeated 1 to 64 times) the pattern compiles and
/// matches exactly the texts of 1 to 64 such characters, as the crate's
/// syntax documentation defines `^`, `$`, `[...]` and `{m,n}`. Nothing else
/// is claimed about what a pattern matches.
#[verifier::external_body]
pub(crate) fn regex_captures(pattern: &str, haystack: &str) -> (res: Option<
    Option<Vec<Option<String>>>,
>)
    ensures
        captures_view(res) == regex_captures_of(pattern@, haystack@),
        pattern@ == project_name_pattern() ==> (res is Some && (res->0 is Some
            <==> is_project_charset_name(haystack@))),
{
    let re = match regex::Regex::new(pattern) {
        Ok(re) => re,
        Err(_) => return None,
    };
    let caps = match re.captures(haystack) {
        Some(caps) => caps,
        None => return Some(None),
    };
    let mut groups: Vec<Option<String>> = Vec::new();
    for m in caps.iter() {
        groups.push(match m { Some(x) => Some(x.as_str().to_string()), None => None });
    }
    Some(Some(groups))
}

/// What `chrono` reads from `text` under the `strftime`-style format `fmt`,
/// as seconds since the Unix epoch with the text taken as UTC.
pub uninterp spec fn utc_timestamp_of(text: Seq<char>, fmt: Seq<char>) -> Option<i64>;

/// `chrono::NaiveDateTime::parse_from_str(text, fmt)`, then `and_utc()` and
/// `timestamp()`. Claimed: the result is `utc_timestamp_of` of the arguments
/// (`None` where parsing fails); nothing about which texts parse.
#[verifier::external_body]
pub(crate) fn parse_utc_timestamp(text: &str, fmt: &str) -> (res: Option<i64>)
    ensures
        res == utc_timestamp_of(text@, fmt@),
{
    match chrono::NaiveDateTime::parse_from_str(text, fmt) {
        Ok(naive) => Some(naive.and_utc().timestamp()),
        Err(_) => None,
    }
}

} // verus!
