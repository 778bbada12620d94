//! The boundary to the regular-expression engine: compiling a pattern and
//! evaluating a compiled pattern against an input string, each behind a
//! contract over the pattern text and the input alone.
use vstd::prelude::*;

use crate::template::groups_view;

verus! {

#[verifier::external_type_specification]
#[verifier::external_body]
pub struct ExRegex(fancy_regex::Regex);

/// Whether `pattern` is accepted by the regular-expression compiler.
pub uninterp spec fn regex_accepts(pattern: Seq<char>) -> bool;

/// The capture groups that evaluating the regular expression compiled from
/// `pattern` yields on `input`: entry 0 is the whole match and entry `i` is
/// group `i`, with `None` for a group that did not participate. The outer
/// `None` covers both a non-match and an engine evaluation error, which are
/// treated identically.
pub uninterp spec fn captures_of(pattern: Seq<char>, input: Seq<char>) -> Option<
    Seq<Option<Seq<char>>>,
>;

/// A compiled regular expression, paired with the pattern text it was
/// compiled from. Values exist only through `compile_regex`, so the engine
/// state always corresponds to the recorded pattern text.
pub struct CompiledRegex {
    source: String,
    regex: fancy_regex::Regex,
}

impl CompiledRegex {
    /// The pattern text this regular expression was compiled from.
    pub closed spec fn spec_source(&self) -> Seq<char> {
        self.source@
    }
}

/// Relies on `fancy_regex::Regex::new`: whether a pattern compiles is a
/// function of the pattern text alone. The compiled value is paired with
/// the text it was compiled from; the engine's own error detail is not
/// kept, since construction errors report the offending pattern text.
#[verifier::external_body]
pub fn compile_regex(pattern: &str) -> (r: Option<CompiledRegex>)
    ensures
        r is Some <==> regex_accepts(pattern@),
        r matches Some(c) ==> c.spec_source() == pattern@,
{
    match fancy_regex::Regex::new(pattern) {
        Ok(regex) => Some(CompiledRegex { source: pattern.to_string(), regex }),
        Err(_) => None,
    }
}

/// Relies on `fancy_regex::Regex::captures`, `Captures::get`,
/// `Captures::len` and `Match::as_str`: for a regex compiled from
/// `re.spec_source()`, the capture groups of the first match are a function
/// of the pattern text and the input alone; a non-match and an engine
/// evaluation error are both reported as `None`.
#[verifier::external_body]
pub fn find_captures(re: &CompiledRegex, text: &str) -> (r: Option<Vec<Option<String>>>)
    ensures
        (match r {
            Some(g) => captures_of(re.spec_source(), text@) == Some(groups_view(g@)),
            None => captures_of(re.spec_source(), text@) is None,
        }),
{
    match re.regex.captures(text) {
        Ok(Some(caps)) => Some(
            (0..caps.len()).map(|i| caps.get(i).map(|m| m.as_str().to_string())).collect(),
        ),
        _ => None,
    }
}

} // verus!
