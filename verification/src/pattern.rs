//! The syntax of command-line value arguments, written as regular expressions,
//! and the matching of texts against them.
use vstd::prelude::*;

verus! {

/// `key=value`, where the key is a dotted field path.
pub const ASSIGN_SYNTAX: &'static str = r#"^(?<key>[\w\d"][\w\d-]*[\w\d"](?:\.[\w\d"][\w\d-]*[\w\d"]?)*)\s*=\s*(?<val>.+)$"#;

/// A number literal.
pub const NUMBER: &'static str = r"^[-+\d]\d*(.\d+)?$";

/// A record, array, parenthesized expression or string literal, judged by its delimiters.
pub const NAIVE_COMPOUND: &'static str = r#"^(?:\{.*\}|\[.*\]|\(.*\)|".*")$"#;

/// `@file` naming a file to import.
pub const IMPORT_FILE_VAL: &'static str = r#"^@(?<file>.+\.(?:yaml|json|ncl|toml))$"#;

/// `'format:content` giving data to deserialize.
pub const PARSE_DATA_VAL: &'static str = r#"^'(?<format>json|yaml):(?<content>.+)$"#;

/// A dotted object path, possibly empty.
pub const OBJECT_PATH: &'static str = r"^(?:[-\w\d_]+(?:\.[-\w\d_]+)*)?$";

/// Whether the regular expression `pattern` matches somewhere in `text`
/// (false when `pattern` does not compile).
pub uninterp spec fn regex_accepts(pattern: Seq<char>, text: Seq<char>) -> bool;

/// The text that the named capture group `group` of the regular expression
/// `pattern` takes in the first match in `text`; `None` when `pattern` does not
/// compile, does not match, has no such group, or the group takes no part in the match.
pub uninterp spec fn regex_group(pattern: Seq<char>, text: Seq<char>, group: Seq<char>) -> Option<
    Seq<char>,
>;

/// Compiles `pattern` with `regex::Regex::new` and asks `Regex::is_match` whether it
/// matches `text`. The contract names the answer `regex_accepts(pattern, text)`,
/// which is false where the pattern does not compile; it does not say what a
/// match is: that is the regular-expression crate's.
#[verifier::external_body]
pub(crate) fn pattern_matches(pattern: &str, text: &str) -> (matched: bool)
    ensures
        matched == regex_accepts(pattern@, text@),
{
    match regex::Regex::new(pattern) {
        Ok(re) => re.is_match(text),
        Err(_) => false,
    }
}

/// Compiles `pattern` with `regex::Regex::new`, takes the first match in `text` with
/// `Regex::captures`, and reads its named group `group` with `Captures::name`.
/// The contract names the result `regex_group(pattern, text, group)`; it does not
/// say which text a group takes: that is the regular-expression crate's.
#[verifier::external_body]
pub(crate) fn pattern_group(pattern: &str, text: &str, group: &str) -> (found: Option<String>)
    ensures
        match found {
            Some(s) => regex_group(pattern@, text@, group@) == Some(s@),
            None => regex_group(pattern@, text@, group@) is None,
        },
{
    let re = regex::Regex::new(pattern).ok()?;
    let caps = re.captures(text)?;
    caps.name(group).map(|m| m.as_str().to_string())
}

} // verus!
