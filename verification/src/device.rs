//! The device family: its result type, its compiled matcher with override
//! sub-rules, and its first-match-wins evaluator.
use vstd::prelude::*;

use crate::engine::captures_of;
use crate::engine::compile_regex;
use crate::engine::find_captures;
use crate::engine::regex_accepts;
use crate::engine::CompiledRegex;
use crate::eval::first_some;
use crate::eval::lemma_first_some_at;
use crate::eval::lemma_first_some_found;
use crate::eval::lemma_first_some_none;
use crate::file::rules_view;
use crate::file::DeviceEntryV;
use crate::file::DeviceParserEntry;
use crate::file::OverrideScope;
use crate::file::OverrideTarget;
use crate::file::OverrideV;
use crate::template::extract_field;
use crate::template::groups_view;
use crate::template::lemma_field_never_empty;
use crate::template::none_if_empty;
use crate::template::opt_view;
use crate::template::spec_field;
use crate::template::spec_none_if_empty;
use crate::template::spec_substitute;
use crate::template::substitute;

verus! {

/// The classified device: family name, brand and model, each absent when
/// no pattern supplied it.
#[derive(Clone, Debug, PartialEq, Eq)]
pub struct Device {
    pub family: Option<String>,
    pub brand: Option<String>,
    pub model: Option<String>,
}

/// The abstract value of a `Device`.
#[verifier::ext_equal]
pub ghost struct DeviceV {
    pub family: Option<Seq<char>>,
    pub brand: Option<Seq<char>>,
    pub model: Option<Seq<char>>,
}

impl View for Device {
    type V = DeviceV;

    open spec fn view(&self) -> DeviceV {
        DeviceV {
            family: opt_view(self.family),
            brand: opt_view(self.brand),
            model: opt_view(self.model),
        }
    }
}

impl DeviceV {
    /// The value meaning "no pattern matched": every field absent.
    pub open spec fn default_v() -> DeviceV {
        DeviceV { family: None, brand: None, model: None }
    }
}

impl Default for Device {
    /// The value meaning "no pattern matched": every field absent.
    fn default() -> (r: Device)
        ensures
            r@ == DeviceV::default_v(),
    {
        Device { family: None, brand: None, model: None }
    }
}

/// One compiled override sub-rule: a compiled secondary pattern plus the
/// replacement template for its target field.
pub struct CompiledOverride {
    target: OverrideTarget,
    scope: OverrideScope,
    regex: CompiledRegex,
    replacement: String,
}

impl View for CompiledOverride {
    type V = OverrideV;

    closed spec fn view(&self) -> OverrideV {
        OverrideV {
            target: self.target,
            scope: self.scope,
            source: self.regex.spec_source(),
            replacement: self.replacement@,
        }
    }
}

/// The abstract values of an ordered compiled override list.
pub open spec fn overrides_view(v: Seq<CompiledOverride>) -> Seq<OverrideV> {
    Seq::new(v.len(), |i: int| v[i]@)
}

/// One compiled device matcher: a compiled pattern, owned copies of its
/// output-field templates, and its compiled override sub-rules. Immutable
/// after construction.
pub struct Matcher {
    regex: CompiledRegex,
    device_replacement: Option<String>,
    brand_replacement: Option<String>,
    model_replacement: Option<String>,
    overrides: Vec<CompiledOverride>,
}

/// The abstract value of a compiled device matcher.
#[verifier::ext_equal]
pub ghost struct MatcherV {
    pub source: Seq<char>,
    pub device_replacement: Option<Seq<char>>,
    pub brand_replacement: Option<Seq<char>>,
    pub model_replacement: Option<Seq<char>>,
    pub overrides: Seq<OverrideV>,
}

impl View for Matcher {
    type V = MatcherV;

    closed spec fn view(&self) -> MatcherV {
        MatcherV {
            source: self.regex.spec_source(),
            device_replacement: opt_view(self.device_replacement),
            brand_replacement: opt_view(self.brand_replacement),
            model_replacement: opt_view(self.model_replacement),
            overrides: overrides_view(self.overrides@),
        }
    }
}

/// The abstract values of an ordered matcher list.
pub open spec fn matchers_view(v: Seq<Matcher>) -> Seq<MatcherV> {
    Seq::new(v.len(), |i: int| v[i]@)
}

/// The extracted text an override sub-rule targets.
pub open spec fn spec_field_of(d: DeviceV, t: OverrideTarget) -> Option<Seq<char>> {
    match t {
        OverrideTarget::Family => d.family,
        OverrideTarget::Brand => d.brand,
        OverrideTarget::Model => d.model,
    }
}

/// The device value with one field replaced.
pub open spec fn spec_set_field(d: DeviceV, t: OverrideTarget, v: Option<Seq<char>>) -> DeviceV {
    match t {
        OverrideTarget::Family => DeviceV { family: v, brand: d.brand, model: d.model },
        OverrideTarget::Brand => DeviceV { family: d.family, brand: v, model: d.model },
        OverrideTarget::Model => DeviceV { family: d.family, brand: d.brand, model: v },
    }
}

/// One override sub-rule's effect: its pattern is evaluated against the
/// text already extracted for its target field, or against the original
/// input, per its scope; on a match the target field is replaced by the
/// substituted replacement template. A sub-rule whose subject is absent or
/// whose pattern does not match leaves the value unchanged.
pub open spec fn spec_apply_override(d: DeviceV, ov: OverrideV, input: Seq<char>) -> DeviceV {
    let subject = match ov.scope {
        OverrideScope::Input => Some(input),
        OverrideScope::Extracted => spec_field_of(d, ov.target),
    };
    match subject {
        None => d,
        Some(s) => match captures_of(ov.source, s) {
            None => d,
            Some(g) => spec_set_field(
                d,
                ov.target,
                spec_none_if_empty(spec_substitute(ov.replacement, g)),
            ),
        },
    }
}

/// The override sub-rules applied in order.
pub open spec fn spec_apply_overrides(d: DeviceV, ovs: Seq<OverrideV>, input: Seq<char>) -> DeviceV
    decreases ovs.len(),
{
    if ovs.len() == 0 {
        d
    } else {
        spec_apply_overrides(spec_apply_override(d, ovs[0], input), ovs.skip(1), input)
    }
}

/// The primary extraction: family from its template or capture group 1,
/// brand from its template alone, model from its template or group 1.
pub open spec fn spec_base(m: MatcherV, g: Seq<Option<Seq<char>>>) -> DeviceV {
    DeviceV {
        family: spec_field(m.device_replacement, g, Some(1)),
        brand: spec_field(m.brand_replacement, g, None),
        model: spec_field(m.model_replacement, g, Some(1)),
    }
}

/// One matcher's attempted extraction: the primary extraction on a match,
/// refined by the override sub-rules in order. Overrides never turn a
/// match into a non-match.
pub open spec fn spec_try_parse(m: MatcherV, input: Seq<char>) -> Option<DeviceV> {
    match captures_of(m.source, input) {
        None => None,
        Some(g) => Some(spec_apply_overrides(spec_base(m, g), m.overrides, input)),
    }
}

/// What compiling an ordered override list yields: the same sub-rules, or
/// the first offending pattern text.
pub open spec fn spec_compile_overrides(rs: Seq<OverrideV>) -> Result<Seq<OverrideV>, Seq<char>>
    decreases rs.len(),
{
    if rs.len() == 0 {
        Ok(Seq::empty())
    } else if !regex_accepts(rs[0].source) {
        Err(rs[0].source)
    } else {
        match spec_compile_overrides(rs.skip(1)) {
            Ok(t) => Ok(seq![rs[0]] + t),
            Err(p) => Err(p),
        }
    }
}

/// What compiling one raw record yields: its matcher, or the first
/// offending pattern text — the primary pattern first, then the override
/// patterns in order.
pub open spec fn spec_compile_entry(e: DeviceEntryV) -> Result<MatcherV, Seq<char>> {
    if !regex_accepts(e.regex) {
        Err(e.regex)
    } else {
        match spec_compile_overrides(e.overrides) {
            Ok(ovs) => Ok(
                MatcherV {
                    source: e.regex,
                    device_replacement: e.device_replacement,
                    brand_replacement: e.brand_replacement,
                    model_replacement: e.model_replacement,
                    overrides: ovs,
                },
            ),
            Err(p) => Err(p),
        }
    }
}

/// What compiling an ordered record list yields: the matchers in the same
/// order, or the first offending pattern text.
pub open spec fn spec_compile_entries(es: Seq<DeviceEntryV>) -> Result<Seq<MatcherV>, Seq<char>>
    decreases es.len(),
{
    if es.len() == 0 {
        Ok(Seq::empty())
    } else {
        match spec_compile_entry(es[0]) {
            Err(p) => Err(p),
            Ok(m) => match spec_compile_entries(es.skip(1)) {
                Ok(t) => Ok(seq![m] + t),
                Err(p) => Err(p),
            },
        }
    }
}

fn field_ref<'a>(d: &'a Device, t: OverrideTarget) -> (r: &'a Option<String>)
    ensures
        opt_view(*r) == spec_field_of(d@, t),
{
    match t {
        OverrideTarget::Family => &d.family,
        OverrideTarget::Brand => &d.brand,
        OverrideTarget::Model => &d.model,
    }
}

fn set_field(d: Device, t: OverrideTarget, v: Option<String>) -> (r: Device)
    ensures
        r@ == spec_set_field(d@, t, opt_view(v)),
{
    match t {
        OverrideTarget::Family => Device { family: v, brand: d.brand, model: d.model },
        OverrideTarget::Brand => Device { family: d.family, brand: v, model: d.model },
        OverrideTarget::Model => Device { family: d.family, brand: d.brand, model: v },
    }
}

fn apply_override(d: Device, ov: &CompiledOverride, input: &str) -> (r: Device)
    ensures
        r@ == spec_apply_override(d@, ov@, input@),
{
    let groups_opt = match ov.scope {
        OverrideScope::Input => find_captures(&ov.regex, input),
        OverrideScope::Extracted => {
            match field_ref(&d, ov.target) {
                Some(s) => find_captures(&ov.regex, s.as_str()),
                None => {
                    return d;
                },
            }
        },
    };
    match groups_opt {
        None => d,
        Some(g) => {
            let v = none_if_empty(substitute(ov.replacement.as_str(), &g));
            set_field(d, ov.target, v)
        },
    }
}

impl Matcher {
    /// Compiles one raw device record into a matcher, or fails with the
    /// first offending pattern text: the primary pattern, then each
    /// override sub-rule's pattern, in order, through the same compilation
    /// path.
    pub fn try_from(entry: DeviceParserEntry) -> (r: Result<Matcher, String>)
        ensures
            (match r {
                Ok(m) => spec_compile_entry(entry@) == Ok::<MatcherV, Seq<char>>(m@),
                Err(p) => spec_compile_entry(entry@) == Err::<MatcherV, Seq<char>>(p@),
            }),
    {
        let regex = match compile_regex(entry.regex.as_str()) {
            Some(c) => c,
            None => {
                return Err(entry.regex);
            },
        };
        let ghost rv = rules_view(entry.overrides@);
        let mut compiled: Vec<CompiledOverride> = Vec::new();
        let mut k: usize = 0;
        proof {
            assert(rv.skip(0) =~= rv);
            assert(overrides_view(compiled@) =~= Seq::<OverrideV>::empty());
        }
        while k < entry.overrides.len()
            invariant
                k <= entry.overrides.len(),
                regex_accepts(entry@.regex),
                rv == rules_view(entry.overrides@),
                rv.len() == entry.overrides.len(),
                (match spec_compile_overrides(rv.skip(k as int)) {
                    Ok(t) => spec_compile_overrides(rv) == Ok::<Seq<OverrideV>, Seq<char>>(
                        overrides_view(compiled@) + t,
                    ),
                    Err(p) => spec_compile_overrides(rv) == Err::<Seq<OverrideV>, Seq<char>>(p),
                }),
            decreases entry.overrides.len() - k,
        {
            let rule = &entry.overrides[k];
            proof {
                assert(rv.skip(k as int)[0] == rv[k as int]);
                assert(rv.skip(k as int).skip(1) =~= rv.skip(k + 1));
            }
            match compile_regex(rule.regex.as_str()) {
                Some(c) => {
                    let co = CompiledOverride {
                        target: rule.target,
                        scope: rule.scope,
                        regex: c,
                        replacement: rule.replacement.clone(),
                    };
                    proof {
                        assert(co@ =~= rv[k as int]);
                        assert(overrides_view(compiled@.push(co)) =~= overrides_view(compiled@)
                            + seq![co@]);
                        if spec_compile_overrides(rv.skip(k + 1)) is Ok {
                            let t = spec_compile_overrides(rv.skip(k + 1))->Ok_0;
                            assert((overrides_view(compiled@) + seq![co@]) + t
                                =~= overrides_view(compiled@) + (seq![rv[k as int]] + t));
                        }
                    }
                    compiled.push(co);
                },
                None => {
                    proof {
                        assert(spec_compile_overrides(rv.skip(k as int)) == Err::<
                            Seq<OverrideV>,
                            Seq<char>,
                        >(rv[k as int].source));
                    }
                    return Err(rule.regex.clone());
                },
            }
            k = k + 1;
        }
        proof {
            assert(rv.skip(rv.len() as int) =~= Seq::<OverrideV>::empty());
            assert(overrides_view(compiled@) + Seq::<OverrideV>::empty() =~= overrides_view(
                compiled@,
            ));
        }
        let m = Matcher {
            regex,
            device_replacement: entry.device_replacement,
            brand_replacement: entry.brand_replacement,
            model_replacement: entry.model_replacement,
            overrides: compiled,
        };
        proof {
            assert(spec_compile_entry(entry@) == Ok::<MatcherV, Seq<char>>(m@)) by {
                assert(spec_compile_entry(entry@)->Ok_0 =~= m@);
            }
        }
        Ok(m)
    }

    /// Attempts extraction from `text`, per `spec_try_parse`: the primary
    /// extraction on a match, refined by the override sub-rules in order.
    pub fn try_parse(&self, text: &str) -> (r: Option<Device>)
        ensures
            (match r {
                Some(d) => spec_try_parse(self@, text@) == Some(d@),
                None => spec_try_parse(self@, text@) is None,
            }),
    {
        match find_captures(&self.regex, text) {
            None => None,
            Some(groups) => {
                let mut d = Device {
                    family: extract_field(&self.device_replacement, &groups, Some(1)),
                    brand: extract_field(&self.brand_replacement, &groups, None),
                    model: extract_field(&self.model_replacement, &groups, Some(1)),
                };
                let ghost base = spec_base(self@, groups_view(groups@));
                let ghost ovs = self@.overrides;
                proof {
                    assert(d@ =~= base);
                    assert(ovs.skip(0) =~= ovs);
                }
                let mut k: usize = 0;
                while k < self.overrides.len()
                    invariant
                        k <= self.overrides.len(),
                        ovs == self@.overrides,
                        ovs.len() == self.overrides.len(),
                        spec_apply_overrides(base, ovs, text@) == spec_apply_overrides(
                            d@,
                            ovs.skip(k as int),
                            text@,
                        ),
                    decreases self.overrides.len() - k,
                {
                    proof {
                        assert(ovs.skip(k as int)[0] == ovs[k as int]);
                        assert(ovs.skip(k as int).skip(1) =~= ovs.skip(k + 1));
                        assert((&self.overrides[k as int])@ == ovs[k as int]);
                    }
                    d = apply_override(d, &self.overrides[k], text);
                    k = k + 1;
                }
                proof {
                    assert(ovs.skip(ovs.len() as int) =~= Seq::<OverrideV>::empty());
                }
                Some(d)
            },
        }
    }
}

/// The outcomes of every matcher in order on one input.
pub open spec fn results_of(ms: Seq<MatcherV>, input: Seq<char>) -> Seq<Option<DeviceV>> {
    Seq::new(ms.len(), |i: int| spec_try_parse(ms[i], input))
}

/// The family evaluation: the first matcher, in configured order, whose
/// extraction succeeds supplies the result; absent that, the default.
pub open spec fn spec_evaluate(ms: Seq<MatcherV>, input: Seq<char>) -> DeviceV {
    match first_some(results_of(ms, input)) {
        Some(d) => d,
        None => DeviceV::default_v(),
    }
}

/// Evaluates the ordered matcher list on `text`: the first successful
/// extraction, or the default value when none succeeds.
pub fn evaluate(ms: &Vec<Matcher>, text: &str) -> (r: Device)
    ensures
        r@ == spec_evaluate(matchers_view(ms@), text@),
{
    let mut i: usize = 0;
    while i < ms.len()
        invariant
            i <= ms.len(),
            forall|k: int| 0 <= k < i ==> spec_try_parse(matchers_view(ms@)[k], text@) is None,
        decreases ms.len() - i,
    {
        match (&ms[i]).try_parse(text) {
            Some(d) => {
                proof {
                    lemma_first_some_at(results_of(matchers_view(ms@), text@), i as int);
                }
                return d;
            },
            None => {
                i = i + 1;
            },
        }
    }
    proof {
        lemma_first_some_none(results_of(matchers_view(ms@), text@));
    }
    Device::default()
}

/// First-match-wins: when two matchers in the family would both match the
/// input, and no matcher earlier than the first of them matches, the
/// evaluator's output is the earlier one's extraction, regardless of what
/// the later one would have produced.
pub proof fn lemma_first_match_wins(ms: Seq<MatcherV>, input: Seq<char>, i: int, j: int)
    requires
        0 <= i < j < ms.len(),
        spec_try_parse(ms[i], input) is Some,
        spec_try_parse(ms[j], input) is Some,
        forall|k: int| 0 <= k < i ==> spec_try_parse(ms[k], input) is None,
    ensures
        spec_evaluate(ms, input) == spec_try_parse(ms[i], input)->Some_0,
{
    lemma_first_some_at(results_of(ms, input), i);
}

/// No-match default: with an empty matcher list, or when no matcher
/// matches the input, the evaluator returns the default value, every
/// optional field absent.
pub proof fn lemma_no_match_default(ms: Seq<MatcherV>, input: Seq<char>)
    requires
        forall|k: int| 0 <= k < ms.len() ==> spec_try_parse(ms[k], input) is None,
    ensures
        spec_evaluate(ms, input) == DeviceV::default_v(),
{
    lemma_first_some_none(results_of(ms, input));
}

/// Whether every optional field is absent or holds a non-empty text.
pub open spec fn wf_device(d: DeviceV) -> bool {
    &&& (match d.family {
        Some(s) => s.len() > 0,
        None => true,
    })
    &&& (match d.brand {
        Some(s) => s.len() > 0,
        None => true,
    })
    &&& (match d.model {
        Some(s) => s.len() > 0,
        None => true,
    })
}

/// Override sub-rules keep fields absent-or-non-empty: a rule either
/// leaves its target alone or replaces it by an absent-instead-of-empty
/// value.
pub proof fn lemma_overrides_preserve_wf(d: DeviceV, ovs: Seq<OverrideV>, input: Seq<char>)
    requires
        wf_device(d),
    ensures
        wf_device(spec_apply_overrides(d, ovs, input)),
    decreases ovs.len(),
{
    if ovs.len() > 0 {
        let d1 = spec_apply_override(d, ovs[0], input);
        assert(wf_device(d1));
        lemma_overrides_preserve_wf(d1, ovs.skip(1), input);
    }
}

/// A successful extraction never reports an empty-but-present field, the
/// override sub-rules included.
pub proof fn lemma_extraction_fields_never_empty(m: MatcherV, input: Seq<char>)
    ensures
        (match spec_try_parse(m, input) {
            Some(d) => wf_device(d),
            None => true,
        }),
{
    if spec_try_parse(m, input) is Some {
        let g = captures_of(m.source, input)->Some_0;
        lemma_field_never_empty(m.device_replacement, g, Some(1));
        lemma_field_never_empty(m.brand_replacement, g, None);
        lemma_field_never_empty(m.model_replacement, g, Some(1));
        lemma_overrides_preserve_wf(spec_base(m, g), m.overrides, input);
    }
}

/// The evaluator's result never holds an empty-but-present field: it is
/// either the default, every field absent, or one matcher's extraction.
pub proof fn lemma_evaluate_fields_never_empty(ms: Seq<MatcherV>, input: Seq<char>)
    ensures
        wf_device(spec_evaluate(ms, input)),
{
    let rs = results_of(ms, input);
    lemma_first_some_found(rs);
    if first_some(rs) is Some {
        let i = choose|i: int| 0 <= i < rs.len() && rs[i] == first_some(rs);
        lemma_extraction_fields_never_empty(ms[i], input);
    }
}

/// Whether every pattern of one record — the primary pattern and each
/// override sub-rule's pattern — is accepted by the compiler.
pub open spec fn entry_patterns_ok(e: DeviceEntryV) -> bool {
    regex_accepts(e.regex) && (forall|k: int|
        0 <= k < e.overrides.len() ==> regex_accepts(#[trigger] e.overrides[k].source))
}

/// Compiling an override list succeeds exactly when every sub-rule's
/// pattern is accepted by the regular-expression compiler.
pub proof fn lemma_compile_overrides_ok_iff(rs: Seq<OverrideV>)
    ensures
        spec_compile_overrides(rs) is Ok <==> (forall|k: int|
            0 <= k < rs.len() ==> regex_accepts(#[trigger] rs[k].source)),
    decreases rs.len(),
{
    if rs.len() > 0 {
        lemma_compile_overrides_ok_iff(rs.skip(1));
        if spec_compile_overrides(rs) is Ok {
            assert forall|k: int| 0 <= k < rs.len() implies regex_accepts(
                #[trigger] rs[k].source,
            ) by {
                if k > 0 {
                    assert(rs.skip(1)[k - 1] == rs[k]);
                }
            }
        } else {
            if forall|k: int| 0 <= k < rs.len() ==> regex_accepts(#[trigger] rs[k].source) {
                assert(regex_accepts(rs[0].source));
                assert forall|k: int| 0 <= k < rs.skip(1).len() implies regex_accepts(
                    #[trigger] rs.skip(1)[k].source,
                ) by {
                    assert(rs.skip(1)[k] == rs[k + 1]);
                }
                assert(false);
            }
        }
    }
}

/// Compiling one record succeeds exactly when all of its patterns are
/// accepted.
pub proof fn lemma_compile_entry_ok_iff(e: DeviceEntryV)
    ensures
        spec_compile_entry(e) is Ok <==> entry_patterns_ok(e),
{
    lemma_compile_overrides_ok_iff(e.overrides);
}

/// Compiling a record list succeeds exactly when every record's patterns
/// are all accepted by the regular-expression compiler.
pub proof fn lemma_compile_entries_ok_iff(es: Seq<DeviceEntryV>)
    ensures
        spec_compile_entries(es) is Ok <==> (forall|i: int|
            0 <= i < es.len() ==> entry_patterns_ok(#[trigger] es[i])),
    decreases es.len(),
{
    if es.len() > 0 {
        lemma_compile_entries_ok_iff(es.skip(1));
        lemma_compile_entry_ok_iff(es[0]);
        if spec_compile_entries(es) is Ok {
            assert forall|i: int| 0 <= i < es.len() implies entry_patterns_ok(
                #[trigger] es[i],
            ) by {
                if i > 0 {
                    assert(es.skip(1)[i - 1] == es[i]);
                }
            }
        } else {
            if forall|i: int| 0 <= i < es.len() ==> entry_patterns_ok(#[trigger] es[i]) {
                assert(entry_patterns_ok(es[0]));
                assert forall|i: int| 0 <= i < es.skip(1).len() implies entry_patterns_ok(
                    #[trigger] es.skip(1)[i],
                ) by {
                    assert(es.skip(1)[i] == es[i + 1]);
                }
                assert(false);
            }
        }
    }
}

} // verus!
