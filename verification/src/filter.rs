//! Filtering of table names by regular-expression patterns: an optional
//! inclusion pattern a name must match, and an optional exclusion pattern
//! it must not. The regex engine is an outside collaborator: what a
//! pattern matches is named, not restated, and the skip decision is proved
//! over those names.

use vstd::prelude::*;

verus! {

/// Whether the regex compiler accepts the pattern written as `pattern`.
pub uninterp spec fn regex_valid(pattern: Seq<char>) -> bool;

/// Whether the regular expression written as `pattern` matches anywhere in
/// `text`.
pub uninterp spec fn regex_match(pattern: Seq<char>, text: Seq<char>) -> bool;

#[verifier::external_type_specification]
#[verifier::external_body]
pub struct ExRegex(regex::Regex);

/// A compiled pattern, kept together with the text it was compiled from;
/// its view is that text.
pub struct Pattern {
    re: regex::Regex,
    source: String,
}

impl View for Pattern {
    type V = Seq<char>;

    closed spec fn view(&self) -> Seq<char> {
        self.source@
    }
}

/// Relies on `regex::Regex::new`: compilation succeeds exactly on the
/// patterns the regex crate accepts (an invalid pattern, or one over the
/// default size limit, is an error), and the compiled value is kept with
/// the text it came from.
#[verifier::external_body]
fn compile(pattern: &str) -> (r: Option<Pattern>)
    ensures
        r is Some <==> regex_valid(pattern@),
        r matches Some(p) ==> p@ == pattern@,
{
    match regex::Regex::new(pattern) {
        Ok(re) => Some(
            Pattern { re, source: pattern.to_owned() },
        ),
        Err(_) => None,
    }
}

impl Pattern {
    /// Compile a pattern; `None` when the regex crate rejects it.
    pub fn new(pattern: &str) -> (r: Option<Pattern>)
        ensures
            r is Some <==> regex_valid(pattern@),
            r matches Some(p) ==> p@ == pattern@,
    {
        compile(pattern)
    }

    /// Relies on `regex::Regex::is_match`: true exactly when the pattern
    /// this value was compiled from matches somewhere in `text`; the
    /// result is a function of the pattern and the text alone.
    #[verifier::external_body]
    fn is_match(&self, text: &str) -> (r: bool)
        ensures
            r == regex_match(self@, text@),
    {
        self.re.is_match(text)
    }
}

/// The pattern text of an optional pattern.
pub open spec fn opt_pattern_view(p: Option<&Pattern>) -> Option<Seq<char>> {
    match p {
        Some(q) => Some(q@),
        None => None,
    }
}

/// The skip decision for a table name: skip when an inclusion pattern is
/// configured and fails to match, or when an exclusion pattern is
/// configured and matches.
pub open spec fn spec_should_skip(
    table: Seq<char>,
    inc: Option<Seq<char>>,
    exc: Option<Seq<char>>,
) -> bool {
    let inclusion_failed = match inc {
        Some(p) => !regex_match(p, table),
        None => false,
    };
    let exclusion_hit = match exc {
        Some(p) => regex_match(p, table),
        None => false,
    };
    inclusion_failed || exclusion_hit
}

/// Determine whether to skip a table, from the optional inclusion and
/// exclusion patterns.
pub fn should_skip(table: &str, inc: Option<&Pattern>, exc: Option<&Pattern>) -> (r: bool)
    ensures
        r == spec_should_skip(table@, opt_pattern_view(inc), opt_pattern_view(exc)),
{
    if let Some(re) = inc {
        if !re.is_match(table) {
            return true;
        }
    }
    if let Some(re) = exc {
        if re.is_match(table) {
            return true;
        }
    }
    false
}

/// For every name, the skip decision is exactly
/// `exclusion_matches || !(no_inclusion_pattern || inclusion_matches)`;
/// with no patterns configured at all it is always false.
pub proof fn lemma_should_skip_form(
    table: Seq<char>,
    inc: Option<Seq<char>>,
    exc: Option<Seq<char>>,
)
    ensures
        spec_should_skip(table, inc, exc) == ({
            let no_inclusion = inc is None;
            let inclusion_matches = inc is Some && regex_match(inc->0, table);
            let exclusion_matches = exc is Some && regex_match(exc->0, table);
            exclusion_matches || !(no_inclusion || inclusion_matches)
        }),
        inc is None && exc is None ==> !spec_should_skip(table, inc, exc),
{
}

} // verus!
