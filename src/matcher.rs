use vstd::prelude::*;

use crate::pattern::{alternation, alternation_pattern};
use crate::text::views_of;

verus! {

#[verifier::external_type_specification]
#[verifier::external_body]
pub struct ExRegex(regex::Regex);

#[verifier::external_type_specification]
#[verifier::external_body]
pub struct ExRegexError(regex::Error);

/// A regex compiled by `Regex::new` with the default options: case
/// sensitive, whitespace significant. Only `compile` makes one, so its
/// matching is fixed by its pattern text alone.
pub struct LiteralRegex {
    re: regex::Regex,
}

/// The pattern text that a regex was compiled from, as `Regex::as_str`
/// gives it back.
pub uninterp spec fn source_of(re: LiteralRegex) -> Seq<char>;

/// `needle` occurs in `hay` as a contiguous run of characters.
pub open spec fn contains(hay: Seq<char>, needle: Seq<char>) -> bool {
    exists|i: int|
        0 <= i && i + needle.len() <= hay.len() && #[trigger] hay.subrange(i, i + needle.len())
            == needle
}

/// One of the literals occurs in `hay`.
pub open spec fn contains_any(literals: Seq<Seq<char>>, hay: Seq<char>) -> bool {
    exists|k: int| 0 <= k < literals.len() && contains(hay, #[trigger] literals[k])
}

/// Relies on `Regex::new`, which compiles with the default options: a regex
/// that it returns keeps the pattern text it was compiled from. It fails on a pattern that does not parse or whose
/// compiled form exceeds the default size limit; nothing is promised of
/// which patterns those are.
#[verifier::external_body]
fn compile(pattern: &str) -> (r: Result<LiteralRegex, regex::Error>)
    ensures
        r matches Ok(re) ==> source_of(re) == pattern@,
{
    match regex::Regex::new(pattern) {
        Ok(re) => Ok(LiteralRegex { re }),
        Err(e) => Err(e),
    }
}

/// Relies on `Regex::is_match`, which reports a match anywhere in the
/// haystack, for a regex that `Regex::new` compiled with the default options
/// (case sensitive, whitespace significant). On a pattern made of one or more `regex::escape`d literals joined
/// by `|`, each branch matches only its literal, so there is a match exactly
/// when one of the literals occurs in the haystack.
#[verifier::external_body]
fn regex_is_match(re: &LiteralRegex, hay: &str) -> (r: bool)
    ensures
        forall|literals: Seq<Seq<char>>|
            literals.len() > 0 && source_of(*re) == #[trigger] alternation(literals) ==> r
                == contains_any(literals, hay@),
{
    re.re.is_match(hay)
}

/// Why a matcher could not be built: the regex engine refused the pattern.
#[derive(Debug, Clone, PartialEq, Eq)]
pub struct BuildError {
    /// The regex engine's own description of the failure.
    pub message: String,
}

/// Tests candidate lines for a literal occurrence of any reference line.
/// It is built once and read only afterwards.
pub struct Matcher {
    regex: Option<LiteralRegex>,
    literals: Ghost<Seq<Seq<char>>>,
}

impl View for Matcher {
    type V = Seq<Seq<char>>;

    /// The reference lines that the matcher looks for.
    closed spec fn view(&self) -> Seq<Seq<char>> {
        self.literals@
    }
}

impl Matcher {
    /// With no reference line there is no regex; otherwise the regex is the
    /// alternation of the escaped reference lines.
    #[verifier::type_invariant]
    spec fn inv(self) -> bool {
        match self.regex {
            None => self.literals@.len() == 0,
            Some(re) => self.literals@.len() > 0 && source_of(re) == alternation(self.literals@),
        }
    }

    /// Builds the matcher for a set of reference lines. An empty set gives a
    /// matcher that accepts no line; it always succeeds. Otherwise the lines
    /// are escaped, joined into one alternation and compiled, which fails only
    /// where the regex engine refuses the pattern.
    pub fn new(references: &[String]) -> (r: Result<Matcher, BuildError>)
        ensures
            r matches Ok(m) ==> m@ == views_of(references@),
            references@.len() == 0 ==> r is Ok,
    {
        if references.len() == 0 {
            return Ok(Matcher { regex: None, literals: Ghost(Seq::empty()) });
        }
        let pattern = alternation_pattern(references);
        match compile(pattern.as_str()) {
            Ok(re) => Ok(Matcher { regex: Some(re), literals: Ghost(views_of(references@)) }),
            Err(e) => Err(BuildError { message: e.to_string() }),
        }
    }

    /// True exactly when one of the reference lines occurs in `line` as a
    /// literal substring; never true for an empty reference set.
    pub fn matches(&self, line: &str) -> (r: bool)
        ensures
            r == contains_any(self@, line@),
    {
        proof {
            use_type_invariant(self);
        }
        match &self.regex {
            None => false,
            Some(re) => {
                let r = regex_is_match(re, line);
                assert(r == contains_any(self.literals@, line@));
                r
            },
        }
    }
}

} // verus!
