use vstd::prelude::*;
use vstd::string::*;

verus! {

/// `regex::Regex`, a compiled regular expression.
#[verifier::external_type_specification]
#[verifier::external_body]
pub struct ExRegex(regex::Regex);

/// `regex::Error`, the error of compiling a regular expression.
#[verifier::external_type_specification]
#[verifier::external_body]
pub struct ExRegexError(regex::Error);

/// Whether `regex::Regex::new` accepts a text as a regular expression.
pub uninterp spec fn regex_accepts(source: Seq<char>) -> bool;

/// The text that a `regex::Regex` was built from, which its `as_str`
/// returns.
pub uninterp spec fn regex_source(re: regex::Regex) -> Seq<char>;

/// Whether the regular expression built from `source` matches somewhere in
/// `haystack`, as `regex::Regex::is_match` tells.
pub uninterp spec fn regex_matches(source: Seq<char>, haystack: Seq<char>) -> bool;

/// Builds a regular expression with `regex::Regex::new`. The contract says
/// that the call fails exactly on the texts that it does not accept, and
/// that the expression remembers the text that it was built from.
#[verifier::external_body]
fn regex_new(source: &str) -> (r: Result<regex::Regex, regex::Error>)
    ensures
        r is Ok <==> regex_accepts(source@),
        match r {
            Ok(re) => regex_source(re) == source@,
            Err(_) => true,
        },
{
    regex::Regex::new(source)
}

/// Searches a text with `regex::Regex::is_match`. The contract names the
/// answer by the text that the expression was built from and the text that
/// is searched.
#[verifier::external_body]
fn regex_is_match(re: &regex::Regex, haystack: &str) -> (found: bool)
    ensures
        found == regex_matches(regex_source(*re), haystack@),
{
    re.is_match(haystack)
}

/// The regular expression that a pattern stands for. A pattern that begins
/// with an underscore is the expression behind the underscore, which may
/// match anywhere in a label. Any other pattern has to match the whole
/// label: it stands between `^` and `$`.
pub open spec fn pattern_source(pattern: Seq<char>) -> Seq<char> {
    if pattern.len() > 0 && pattern[0] == '_' {
        pattern.subrange(1, pattern.len() as int)
    } else {
        seq!['^'] + pattern + seq!['$']
    }
}

/// Whether a label matches the expression built from `source`. A source
/// that is no regular expression matches nothing.
pub open spec fn source_matches(source: Seq<char>, label: Seq<char>) -> bool {
    regex_accepts(source) && regex_matches(source, label)
}

/// Whether a label matches a pattern.
pub open spec fn pattern_matches(pattern: Seq<char>, label: Seq<char>) -> bool {
    source_matches(pattern_source(pattern), label)
}

/// Writes the regular expression that a pattern stands for.
pub fn source_of_pattern(pattern: &str) -> (source: String)
    ensures
        source@ == pattern_source(pattern@),
{
    let n: usize = pattern.unicode_len();
    if n > 0 && pattern.get_char(0) == '_' {
        String::from_str(pattern.substring_char(1, n))
    } else {
        proof {
            reveal_strlit("^");
            reveal_strlit("$");
        }
        let mut source = String::from_str("^");
        source.append(pattern);
        source.append("$");
        assert(source@ =~= seq!['^'] + pattern@ + seq!['$']);
        source
    }
}

/// Tells whether a label matches the expression built from `source`.
pub fn matches_source(source: &str, label: &str) -> (found: bool)
    ensures
        found == source_matches(source@, label@),
{
    match regex_new(source) {
        Ok(re) => regex_is_match(&re, label),
        Err(_) => false,
    }
}

/// Tells whether a label matches a pattern.
pub fn matches_pattern(pattern: &str, label: &str) -> (found: bool)
    ensures
        found == pattern_matches(pattern@, label@),
{
    let source = source_of_pattern(pattern);
    matches_source(source.as_str(), label)
}

} // verus!
