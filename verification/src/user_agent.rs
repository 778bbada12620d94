//! The user-agent family: its result type, its compiled matcher, and its
//! first-match-wins evaluator.
use vstd::prelude::*;

use crate::engine::captures_of;
use crate::engine::compile_regex;
use crate::engine::find_captures;
use crate::engine::regex_accepts;
use crate::engine::CompiledRegex;
use crate::eval::first_some;
use crate::eval::lemma_first_some_at;
use crate::eval::lemma_first_some_found;
use crate::eval::lemma_first_some_none;
use crate::file::UserAgentEntryV;
use crate::file::UserAgentParserEntry;
use crate::template::extract_field;
use crate::template::lemma_field_never_empty;
use crate::template::opt_view;
use crate::template::spec_field;

verus! {

/// The classified user-agent software: a family name and up to three
/// version components, each absent when no pattern supplied it.
#[derive(Clone, Debug, PartialEq, Eq)]
pub struct UserAgent {
    pub family: Option<String>,
    pub major: Option<String>,
    pub minor: Option<String>,
    pub patch: Option<String>,
}

/// The abstract value of a `UserAgent`.
#[verifier::ext_equal]
pub ghost struct UserAgentV {
    pub family: Option<Seq<char>>,
    pub major: Option<Seq<char>>,
    pub minor: Option<Seq<char>>,
    pub patch: Option<Seq<char>>,
}

impl View for UserAgent {
    type V = UserAgentV;

    open spec fn view(&self) -> UserAgentV {
        UserAgentV {
            family: opt_view(self.family),
            major: opt_view(self.major),
            minor: opt_view(self.minor),
            patch: opt_view(self.patch),
        }
    }
}

impl UserAgentV {
    /// The value meaning "no pattern matched": every field absent.
    pub open spec fn default_v() -> UserAgentV {
        UserAgentV { family: None, major: None, minor: None, patch: None }
    }
}

impl Default for UserAgent {
    /// The value meaning "no pattern matched": every field absent.
    fn default() -> (r: UserAgent)
        ensures
            r@ == UserAgentV::default_v(),
    {
        UserAgent { family: None, major: None, minor: None, patch: None }
    }
}

/// One compiled user-agent matcher: a compiled pattern plus owned copies of
/// its output-field templates. Immutable after construction.
pub struct Matcher {
    regex: CompiledRegex,
    family_replacement: Option<String>,
    v1_replacement: Option<String>,
    v2_replacement: Option<String>,
    v3_replacement: Option<String>,
}

/// The abstract value of a compiled user-agent matcher.
#[verifier::ext_equal]
pub ghost struct MatcherV {
    pub source: Seq<char>,
    pub family_replacement: Option<Seq<char>>,
    pub v1_replacement: Option<Seq<char>>,
    pub v2_replacement: Option<Seq<char>>,
    pub v3_replacement: Option<Seq<char>>,
}

impl View for Matcher {
    type V = MatcherV;

    closed spec fn view(&self) -> MatcherV {
        MatcherV {
            source: self.regex.spec_source(),
            family_replacement: opt_view(self.family_replacement),
            v1_replacement: opt_view(self.v1_replacement),
            v2_replacement: opt_view(self.v2_replacement),
            v3_replacement: opt_view(self.v3_replacement),
        }
    }
}

/// The abstract values of an ordered matcher list.
pub open spec fn matchers_view(v: Seq<Matcher>) -> Seq<MatcherV> {
    Seq::new(v.len(), |i: int| v[i]@)
}

/// One matcher's attempted extraction: on a match, the family name comes
/// from its template or capture group 1, and the three version components
/// from their templates or groups 2 through 4.
pub open spec fn spec_try_parse(m: MatcherV, input: Seq<char>) -> Option<UserAgentV> {
    match captures_of(m.source, input) {
        None => None,
        Some(g) => Some(
            UserAgentV {
                family: spec_field(m.family_replacement, g, Some(1)),
                major: spec_field(m.v1_replacement, g, Some(2)),
                minor: spec_field(m.v2_replacement, g, Some(3)),
                patch: spec_field(m.v3_replacement, g, Some(4)),
            },
        ),
    }
}

/// What compiling one raw record yields: its matcher, or the offending
/// pattern text when the pattern does not compile.
pub open spec fn spec_compile_entry(e: UserAgentEntryV) -> Result<MatcherV, Seq<char>> {
    if regex_accepts(e.regex) {
        Ok(
            MatcherV {
                source: e.regex,
                family_replacement: e.family_replacement,
                v1_replacement: e.v1_replacement,
                v2_replacement: e.v2_replacement,
                v3_replacement: e.v3_replacement,
            },
        )
    } else {
        Err(e.regex)
    }
}

/// What compiling an ordered record list yields: the matchers in the same
/// order, or the first offending pattern text.
pub open spec fn spec_compile_entries(es: Seq<UserAgentEntryV>) -> Result<Seq<MatcherV>, Seq<char>>
    decreases es.len(),
{
    if es.len() == 0 {
        Ok(Seq::empty())
    } else {
        match spec_compile_entry(es[0]) {
            Err(p) => Err(p),
            Ok(m) => match spec_compile_entries(es.skip(1)) {
                Ok(t) => Ok(seq![m] + t),
                Err(p) => Err(p),
            },
        }
    }
}

impl Matcher {
    /// Compiles one raw user-agent record into a matcher, or fails with the
    /// offending pattern text.
    pub fn try_from(entry: UserAgentParserEntry) -> (r: Result<Matcher, String>)
        ensures
            (match r {
                Ok(m) => spec_compile_entry(entry@) == Ok::<MatcherV, Seq<char>>(m@),
                Err(p) => spec_compile_entry(entry@) == Err::<MatcherV, Seq<char>>(p@),
            }),
    {
        match compile_regex(entry.regex.as_str()) {
            Some(c) => {
                let m = Matcher {
                    regex: c,
                    family_replacement: entry.family_replacement,
                    v1_replacement: entry.v1_replacement,
                    v2_replacement: entry.v2_replacement,
                    v3_replacement: entry.v3_replacement,
                };
                proof {
                    assert(spec_compile_entry(entry@) == Ok::<MatcherV, Seq<char>>(m@)) by {
                        assert(spec_compile_entry(entry@)->Ok_0 =~= m@);
                    }
                }
                Ok(m)
            },
            None => Err(entry.regex),
        }
    }

    /// Attempts extraction from `text`, per `spec_try_parse`.
    pub fn try_parse(&self, text: &str) -> (r: Option<UserAgent>)
        ensures
            (match r {
                Some(u) => spec_try_parse(self@, text@) == Some(u@),
                None => spec_try_parse(self@, text@) is None,
            }),
    {
        match find_captures(&self.regex, text) {
            None => None,
            Some(groups) => {
                let u = UserAgent {
                    family: extract_field(&self.family_replacement, &groups, Some(1)),
                    major: extract_field(&self.v1_replacement, &groups, Some(2)),
                    minor: extract_field(&self.v2_replacement, &groups, Some(3)),
                    patch: extract_field(&self.v3_replacement, &groups, Some(4)),
                };
                proof {
                    assert(spec_try_parse(self@, text@)->Some_0 =~= u@);
                }
                Some(u)
            },
        }
    }
}

/// The outcomes of every matcher in order on one input.
pub open spec fn results_of(ms: Seq<MatcherV>, input: Seq<char>) -> Seq<Option<UserAgentV>> {
    Seq::new(ms.len(), |i: int| spec_try_parse(ms[i], input))
}

/// The family evaluation: the first matcher, in configured order, whose
/// extraction succeeds supplies the result; absent that, the default.
pub open spec fn spec_evaluate(ms: Seq<MatcherV>, input: Seq<char>) -> UserAgentV {
    match first_some(results_of(ms, input)) {
        Some(u) => u,
        None => UserAgentV::default_v(),
    }
}

/// Evaluates the ordered matcher list on `text`: the first successful
/// extraction, or the default value when none succeeds.
pub fn evaluate(ms: &Vec<Matcher>, text: &str) -> (r: UserAgent)
    ensures
        r@ == spec_evaluate(matchers_view(ms@), text@),
{
    let mut i: usize = 0;
    while i < ms.len()
        invariant
            i <= ms.len(),
            forall|k: int| 0 <= k < i ==> spec_try_parse(matchers_view(ms@)[k], text@) is None,
        decreases ms.len() - i,
    {
        match (&ms[i]).try_parse(text) {
            Some(u) => {
                proof {
                    lemma_first_some_at(results_of(matchers_view(ms@), text@), i as int);
                }
                return u;
            },
            None => {
                i = i + 1;
            },
        }
    }
    proof {
        lemma_first_some_none(results_of(matchers_view(ms@), text@));
    }
    UserAgent::default()
}

/// First-match-wins: when two matchers in the family would both match the
/// input, and no matcher earlier than the first of them matches, the
/// evaluator's output is the earlier one's extraction, regardless of what
/// the later one would have produced.
pub proof fn lemma_first_match_wins(ms: Seq<MatcherV>, input: Seq<char>, i: int, j: int)
    requires
        0 <= i < j < ms.len(),
        spec_try_parse(ms[i], input) is Some,
        spec_try_parse(ms[j], input) is Some,
        forall|k: int| 0 <= k < i ==> spec_try_parse(ms[k], input) is None,
    ensures
        spec_evaluate(ms, input) == spec_try_parse(ms[i], input)->Some_0,
{
    lemma_first_some_at(results_of(ms, input), i);
}

/// No-match default: with an empty matcher list, or when no matcher
/// matches the input, the evaluator returns the default value, every
/// optional field absent.
pub proof fn lemma_no_match_default(ms: Seq<MatcherV>, input: Seq<char>)
    requires
        forall|k: int| 0 <= k < ms.len() ==> spec_try_parse(ms[k], input) is None,
    ensures
        spec_evaluate(ms, input) == UserAgentV::default_v(),
{
    lemma_first_some_none(results_of(ms, input));
}

/// Whether every optional field is absent or holds a non-empty text.
pub open spec fn wf_user_agent(u: UserAgentV) -> bool {
    &&& (match u.family {
        Some(s) => s.len() > 0,
        None => true,
    })
    &&& (match u.major {
        Some(s) => s.len() > 0,
        None => true,
    })
    &&& (match u.minor {
        Some(s) => s.len() > 0,
        None => true,
    })
    &&& (match u.patch {
        Some(s) => s.len() > 0,
        None => true,
    })
}

/// A successful extraction never reports an empty-but-present field.
pub proof fn lemma_extraction_fields_never_empty(m: MatcherV, input: Seq<char>)
    ensures
        (match spec_try_parse(m, input) {
            Some(u) => wf_user_agent(u),
            None => true,
        }),
{
    if spec_try_parse(m, input) is Some {
        let g = captures_of(m.source, input)->Some_0;
        lemma_field_never_empty(m.family_replacement, g, Some(1));
        lemma_field_never_empty(m.v1_replacement, g, Some(2));
        lemma_field_never_empty(m.v2_replacement, g, Some(3));
        lemma_field_never_empty(m.v3_replacement, g, Some(4));
    }
}

/// The evaluator's result never holds an empty-but-present field: it is
/// either the default, every field absent, or one matcher's extraction.
pub proof fn lemma_evaluate_fields_never_empty(ms: Seq<MatcherV>, input: Seq<char>)
    ensures
        wf_user_agent(spec_evaluate(ms, input)),
{
    let rs = results_of(ms, input);
    lemma_first_some_found(rs);
    if first_some(rs) is Some {
        let i = choose|i: int| 0 <= i < rs.len() && rs[i] == first_some(rs);
        lemma_extraction_fields_never_empty(ms[i], input);
    }
}

/// Compiling a record list succeeds exactly when every record's pattern
/// is accepted by the regular-expression compiler.
pub proof fn lemma_compile_entries_ok_iff(es: Seq<UserAgentEntryV>)
    ensures
        spec_compile_entries(es) is Ok <==> (forall|i: int|
            0 <= i < es.len() ==> regex_accepts(#[trigger] es[i].regex)),
    decreases es.len(),
{
    if es.len() > 0 {
        lemma_compile_entries_ok_iff(es.skip(1));
        if spec_compile_entries(es) is Ok {
            assert forall|i: int| 0 <= i < es.len() implies regex_accepts(
                #[trigger] es[i].regex,
            ) by {
                if i > 0 {
                    assert(es.skip(1)[i - 1] == es[i]);
                }
            }
        } else {
            if forall|i: int| 0 <= i < es.len() ==> regex_accepts(#[trigger] es[i].regex) {
                assert(regex_accepts(es[0].regex));
                assert forall|i: int| 0 <= i < es.skip(1).len() implies regex_accepts(
                    #[trigger] es.skip(1)[i].regex,
                ) by {
                    assert(es.skip(1)[i] == es[i + 1]);
                }
                assert(false);
            }
        }
    }
}

} // verus!
