//! The operating-system family: its result type, its compiled matcher, and
//! its first-match-wins evaluator.
use vstd::prelude::*;

use crate::engine::captures_of;
use crate::engine::compile_regex;
use crate::engine::find_captures;
use crate::engine::regex_accepts;
use crate::engine::CompiledRegex;
use crate::eval::first_some;
use crate::eval::lemma_first_some_at;
use crate::eval::lemma_first_some_found;
use crate::eval::lemma_first_some_none;
use crate::file::OSEntryV;
use crate::file::OSParserEntry;
use crate::template::extract_field;
use crate::template::lemma_field_never_empty;
use crate::template::opt_view;
use crate::template::spec_field;

verus! {

/// The classified operating system: a family name and up to four version
/// components, each absent when no pattern supplied it.
#[derive(Clone, Debug, PartialEq, Eq)]
pub struct OS {
    pub family: Option<String>,
    pub major: Option<String>,
    pub minor: Option<String>,
    pub patch: Option<String>,
    pub patch_minor: Option<String>,
}

/// The abstract value of an `OS`.
#[verifier::ext_equal]
pub ghost struct OSV {
    pub family: Option<Seq<char>>,
    pub major: Option<Seq<char>>,
    pub minor: Option<Seq<char>>,
    pub patch: Option<Seq<char>>,
    pub patch_minor: Option<Seq<char>>,
}

impl View for OS {
    type V = OSV;

    open spec fn view(&self) -> OSV {
        OSV {
            family: opt_view(self.family),
            major: opt_view(self.major),
            minor: opt_view(self.minor),
            patch: opt_view(self.patch),
            patch_minor: opt_view(self.patch_minor),
        }
    }
}

impl OSV {
    /// The value meaning "no pattern matched": every field absent.
    pub open spec fn default_v() -> OSV {
        OSV { family: None, major: None, minor: None, patch: None, patch_minor: None }
    }
}

impl Default for OS {
    /// The value meaning "no pattern matched": every field absent.
    fn default() -> (r: OS)
        ensures
            r@ == OSV::default_v(),
    {
        OS { family: None, major: None, minor: None, patch: None, patch_minor: None }
    }
}

/// One compiled operating-system matcher: a compiled pattern plus owned
/// copies of its output-field templates. Immutable after construction.
pub struct Matcher {
    regex: CompiledRegex,
    os_replacement: Option<String>,
    os_v1_replacement: Option<String>,
    os_v2_replacement: Option<String>,
    os_v3_replacement: Option<String>,
    os_v4_replacement: Option<String>,
}

/// The abstract value of a compiled operating-system matcher.
#[verifier::ext_equal]
pub ghost struct MatcherV {
    pub source: Seq<char>,
    pub os_replacement: Option<Seq<char>>,
    pub os_v1_replacement: Option<Seq<char>>,
    pub os_v2_replacement: Option<Seq<char>>,
    pub os_v3_replacement: Option<Seq<char>>,
    pub os_v4_replacement: Option<Seq<char>>,
}

impl View for Matcher {
    type V = MatcherV;

    closed spec fn view(&self) -> MatcherV {
        MatcherV {
            source: self.regex.spec_source(),
            os_replacement: opt_view(self.os_replacement),
            os_v1_replacement: opt_view(self.os_v1_replacement),
            os_v2_replacement: opt_view(self.os_v2_replacement),
            os_v3_replacement: opt_view(self.os_v3_replacement),
            os_v4_replacement: opt_view(self.os_v4_replacement),
        }
    }
}

/// The abstract values of an ordered matcher list.
pub open spec fn matchers_view(v: Seq<Matcher>) -> Seq<MatcherV> {
    Seq::new(v.len(), |i: int| v[i]@)
}

/// One matcher's attempted extraction: on a match, the family name comes
/// from its template or capture group 1, and the four version components
/// from their templates or groups 2 through 5.
pub open spec fn spec_try_parse(m: MatcherV, input: Seq<char>) -> Option<OSV> {
    match captures_of(m.source, input) {
        None => None,
        Some(g) => Some(
            OSV {
                family: spec_field(m.os_replacement, g, Some(1)),
                major: spec_field(m.os_v1_replacement, g, Some(2)),
                minor: spec_field(m.os_v2_replacement, g, Some(3)),
                patch: spec_field(m.os_v3_replacement, g, Some(4)),
                patch_minor: spec_field(m.os_v4_replacement, g, Some(5)),
            },
        ),
    }
}

/// What compiling one raw record yields: its matcher, or the offending
/// pattern text when the pattern does not compile.
pub open spec fn spec_compile_entry(e: OSEntryV) -> Result<MatcherV, Seq<char>> {
    if regex_accepts(e.regex) {
        Ok(
            MatcherV {
                source: e.regex,
                os_replacement: e.os_replacement,
                os_v1_replacement: e.os_v1_replacement,
                os_v2_replacement: e.os_v2_replacement,
                os_v3_replacement: e.os_v3_replacement,
                os_v4_replacement: e.os_v4_replacement,
            },
        )
    } else {
        Err(e.regex)
    }
}

/// What compiling an ordered record list yields: the matchers in the same
/// order, or the first offending pattern text.
pub open spec fn spec_compile_entries(es: Seq<OSEntryV>) -> Result<Seq<MatcherV>, Seq<char>>
    decreases es.len(),
{
    if es.len() == 0 {
        Ok(Seq::empty())
    } else {
        match spec_compile_entry(es[0]) {
            Err(p) => Err(p),
            Ok(m) => match spec_compile_entries(es.skip(1)) {
                Ok(t) => Ok(seq![m] + t),
                Err(p) => Err(p),
            },
        }
    }
}

impl Matcher {
    /// Compiles one raw operating-system record into a matcher, or fails
    /// with the offending pattern text.
    pub fn try_from(entry: OSParserEntry) -> (r: Result<Matcher, String>)
        ensures
            (match r {
                Ok(m) => spec_compile_entry(entry@) == Ok::<MatcherV, Seq<char>>(m@),
                Err(p) => spec_compile_entry(entry@) == Err::<MatcherV, Seq<char>>(p@),
            }),
    {
        match compile_regex(entry.regex.as_str()) {
            Some(c) => {
                let m = Matcher {
                    regex: c,
                    os_replacement: entry.os_replacement,
                    os_v1_replacement: entry.os_v1_replacement,
                    os_v2_replacement: entry.os_v2_replacement,
                    os_v3_replacement: entry.os_v3_replacement,
                    os_v4_replacement: entry.os_v4_replacement,
                };
                proof {
                    assert(spec_compile_entry(entry@) == Ok::<MatcherV, Seq<char>>(m@)) by {
                        assert(spec_compile_entry(entry@)->Ok_0 =~= m@);
                    }
                }
                Ok(m)
            },
            None => Err(entry.regex),
        }
    }

    /// Attempts extraction from `text`, per `spec_try_parse`.
    pub fn try_parse(&self, text: &str) -> (r: Option<OS>)
        ensures
            (match r {
                Some(o) => spec_try_parse(self@, text@) == Some(o@),
                None => spec_try_parse(self@, text@) is None,
            }),
    {
        match find_captures(&self.regex, text) {
            None => None,
            Some(groups) => {
                let o = OS {
                    family: extract_field(&self.os_replacement, &groups, Some(1)),
                    major: extract_field(&self.os_v1_replacement, &groups, Some(2)),
                    minor: extract_field(&self.os_v2_replacement, &groups, Some(3)),
                    patch: extract_field(&self.os_v3_replacement, &groups, Some(4)),
                    patch_minor: extract_field(&self.os_v4_replacement, &groups, Some(5)),
                };
                proof {
                    assert(spec_try_parse(self@, text@)->Some_0 =~= o@);
                }
                Some(o)
            },
        }
    }
}

/// The outcomes of every matcher in order on one input.
pub open spec fn results_of(ms: Seq<MatcherV>, input: Seq<char>) -> Seq<Option<OSV>> {
    Seq::new(ms.len(), |i: int| spec_try_parse(ms[i], input))
}

/// The family evaluation: the first matcher, in configured order, whose
/// extraction succeeds supplies the result; absent that, the default.
pub open spec fn spec_evaluate(ms: Seq<MatcherV>, input: Seq<char>) -> OSV {
    match first_some(results_of(ms, input)) {
        Some(o) => o,
        None => OSV::default_v(),
    }
}

/// Evaluates the ordered matcher list on `text`: the first successful
/// extraction, or the default value when none succeeds.
pub fn evaluate(ms: &Vec<Matcher>, text: &str) -> (r: OS)
    ensures
        r@ == spec_evaluate(matchers_view(ms@), text@),
{
    let mut i: usize = 0;
    while i < ms.len()
        invariant
            i <= ms.len(),
            forall|k: int| 0 <= k < i ==> spec_try_parse(matchers_view(ms@)[k], text@) is None,
        decreases ms.len() - i,
    {
        match (&ms[i]).try_parse(text) {
            Some(o) => {
                proof {
                    lemma_first_some_at(results_of(matchers_view(ms@), text@), i as int);
                }
                return o;
            },
            None => {
                i = i + 1;
            },
        }
    }
    proof {
        lemma_first_some_none(results_of(matchers_view(ms@), text@));
    }
    OS::default()
}

/// First-match-wins: when two matchers in the family would both match the
/// input, and no matcher earlier than the first of them matches, the
/// evaluator's output is the earlier one's extraction, regardless of what
/// the later one would have produced.
pub proof fn lemma_first_match_wins(ms: Seq<MatcherV>, input: Seq<char>, i: int, j: int)
    requires
        0 <= i < j < ms.len(),
        spec_try_parse(ms[i], input) is Some,
        spec_try_parse(ms[j], input) is Some,
        forall|k: int| 0 <= k < i ==> spec_try_parse(ms[k], input) is None,
    ensures
        spec_evaluate(ms, input) == spec_try_parse(ms[i], input)->Some_0,
{
    lemma_first_some_at(results_of(ms, input), i);
}

/// No-match default: with an empty matcher list, or when no matcher
/// matches the input, the evaluator returns the default value, every
/// optional field absent.
pub proof fn lemma_no_match_default(ms: Seq<MatcherV>, input: Seq<char>)
    requires
        forall|k: int| 0 <= k < ms.len() ==> spec_try_parse(ms[k], input) is None,
    ensures
        spec_evaluate(ms, input) == OSV::default_v(),
{
    lemma_first_some_none(results_of(ms, input));
}

/// Whether every optional field is absent or holds a non-empty text.
pub open spec fn wf_os(o: OSV) -> bool {
    &&& (match o.family {
        Some(s) => s.len() > 0,
        None => true,
    })
    &&& (match o.major {
        Some(s) => s.len() > 0,
        None => true,
    })
    &&& (match o.minor {
        Some(s) => s.len() > 0,
        None => true,
    })
    &&& (match o.patch {
        Some(s) => s.len() > 0,
        None => true,
    })
    &&& (match o.patch_minor {
        Some(s) => s.len() > 0,
        None => true,
    })
}

/// A successful extraction never reports an empty-but-present field.
pub proof fn lemma_extraction_fields_never_empty(m: MatcherV, input: Seq<char>)
    ensures
        (match spec_try_parse(m, input) {
            Some(o) => wf_os(o),
            None => true,
        }),
{
    if spec_try_parse(m, input) is Some {
        let g = captures_of(m.source, input)->Some_0;
        lemma_field_never_empty(m.os_replacement, g, Some(1));
        lemma_field_never_empty(m.os_v1_replacement, g, Some(2));
        lemma_field_never_empty(m.os_v2_replacement, g, Some(3));
        lemma_field_never_empty(m.os_v3_replacement, g, Some(4));
        lemma_field_never_empty(m.os_v4_replacement, g, Some(5));
    }
}

/// The evaluator's result never holds an empty-but-present field: it is
/// either the default, every field absent, or one matcher's extraction.
pub proof fn lemma_evaluate_fields_never_empty(ms: Seq<MatcherV>, input: Seq<char>)
    ensures
        wf_os(spec_evaluate(ms, input)),
{
    let rs = results_of(ms, input);
    lemma_first_some_found(rs);
    if first_some(rs) is Some {
        let i = choose|i: int| 0 <= i < rs.len() && rs[i] == first_some(rs);
        lemma_extraction_fields_never_empty(ms[i], input);
    }
}

/// Compiling a record list succeeds exactly when every record's pattern
/// is accepted by the regular-expression compiler.
pub proof fn lemma_compile_entries_ok_iff(es: Seq<OSEntryV>)
    ensures
        spec_compile_entries(es) is Ok <==> (forall|i: int|
            0 <= i < es.len() ==> regex_accepts(#[trigger] es[i].regex)),
    decreases es.len(),
{
    if es.len() > 0 {
        lemma_compile_entries_ok_iff(es.skip(1));
        if spec_compile_entries(es) is Ok {
            assert forall|i: int| 0 <= i < es.len() implies regex_accepts(
                #[trigger] es[i].regex,
            ) by {
                if i > 0 {
                    assert(es.skip(1)[i - 1] == es[i]);
                }
            }
        } else {
            if forall|i: int| 0 <= i < es.len() ==> regex_accepts(#[trigger] es[i].regex) {
                assert(regex_accepts(es[0].regex));
                assert forall|i: int| 0 <= i < es.skip(1).len() implies regex_accepts(
                    #[trigger] es.skip(1)[i].regex,
                ) by {
                    assert(es.skip(1)[i] == es[i + 1]);
                }
                assert(false);
            }
        }
    }
}

} // verus!
