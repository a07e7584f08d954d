//! The calls this library makes into `serde_json` and `regex`. Each item
//! here is trusted: its contract is believed, not proved.

use vstd::prelude::*;

verus! {

/// What `serde_json::from_str::<Vec<Vec<Vec<String>>>>` gives for a JSON text,
/// each string taken by its characters, or, when it reports an error, that
/// error's message (`to_string`).
pub uninterp spec fn json_string_tables(text: Seq<char>) -> Result<
    Seq<Seq<Seq<Seq<char>>>>,
    Seq<char>,
>;

/// What `regex::Regex::new` reports for a pattern: `None` when it builds a
/// regex, else the message (`to_string`) of its error.
pub uninterp spec fn regex_build_error(pattern: Seq<char>) -> Option<Seq<char>>;

/// What `regex::Regex::replace` returns for the regex built from `pattern`:
/// `haystack` with its leftmost-first match replaced by `replacement`, in
/// which `$` references to capture groups are expanded.
pub uninterp spec fn regex_replace_first(
    pattern: Seq<char>,
    haystack: Seq<char>,
    replacement: Seq<char>,
) -> Seq<char>;

/// Calls `serde_json::from_str` to decode a JSON array of arrays of arrays of
/// strings, turning an error into its message. Claimed: the result is
/// `json_string_tables` of the text, which depends on the text alone.
#[verifier::external_body]
pub(crate) fn decode_json_string_tables(text: &str) -> (res: Result<Vec<Vec<Vec<String>>>, String>)
    ensures
        match res {
            Ok(tables) => json_string_tables(text@) == Ok::<
                Seq<Seq<Seq<Seq<char>>>>,
                Seq<char>,
            >(tables.deep_view()),
            Err(m) => json_string_tables(text@) == Err::<Seq<Seq<Seq<Seq<char>>>>, Seq<char>>(m@),
        },
{
    match serde_json::from_str(text) {
        Ok(tables) => Ok(tables),
        Err(e) => Err(e.to_string()),
    }
}

/// Calls `regex::Regex::new(pattern)` and, when the pattern builds,
/// `Regex::replace(haystack, replacement)` on the result; an error is turned
/// into its message. Claimed: the call fails exactly when
/// `regex_build_error(pattern)` names a message, and then with that message;
/// otherwise it returns `regex_replace_first(pattern, haystack, replacement)`.
/// Nothing more is said of what the regex matches.
#[verifier::external_body]
pub(crate) fn replace_first_regex_match(pattern: &str, haystack: &str, replacement: &str) -> (res:
    Result<String, String>)
    ensures
        match res {
            Ok(s) => regex_build_error(pattern@) is None && s@ == regex_replace_first(
                pattern@,
                haystack@,
                replacement@,
            ),
            Err(m) => regex_build_error(pattern@) == Some(m@),
        },
{
    match regex::Regex::new(pattern) {
        Ok(re) => Ok(re.replace(haystack, replacement).into_owned()),
        Err(e) => Err(e.to_string()),
    }
}

} // verus!
