//! Capture-group template substitution: replacing every `$n` placeholder
//! occurring in an output-field template with the text of capture group
//! `n` — the empty string when that group did not participate or the regex
//! never had it — trimming the result, and reporting empty results as
//! absent.
use vstd::prelude::*;

use crate::text::chars_vec;
use crate::text::digit_val;
use crate::text::digit_val_ex;
use crate::text::is_digit;
use crate::text::is_digit_ex;
use crate::text::push_all;
use crate::text::spec_trim;
use crate::text::string_from_chars;
use crate::text::trim;

verus! {

/// The abstract value of one capture list: entry 0 is the whole match and
/// entry `i` is group `i`; `None` marks a group that did not participate.
pub open spec fn groups_view(g: Seq<Option<String>>) -> Seq<Option<Seq<char>>> {
    Seq::new(
        g.len(),
        |i: int|
            match g[i] {
                Some(s) => Some(s@),
                None => None,
            },
    )
}

/// The abstract value of an optional string field.
pub open spec fn opt_view(o: Option<String>) -> Option<Seq<char>> {
    match o {
        Some(s) => Some(s@),
        None => None,
    }
}

/// The text of capture group `i`: empty when the group did not
/// participate, or the regex never had a group `i` at all.
pub open spec fn spec_group_text(groups: Seq<Option<Seq<char>>>, i: int) -> Seq<char> {
    if 0 <= i < groups.len() && groups[i] is Some {
        groups[i].unwrap()
    } else {
        Seq::empty()
    }
}

/// The length of the run of decimal digit characters at the front of `s`.
pub open spec fn spec_digit_run(s: Seq<char>) -> int
    decreases s.len(),
{
    if s.len() == 0 || !is_digit(s[0]) {
        0
    } else {
        1 + spec_digit_run(s.skip(1))
    }
}

/// The digit run is never longer than the text it starts.
pub proof fn lemma_digit_run_le(s: Seq<char>)
    ensures
        0 <= spec_digit_run(s) <= s.len(),
    decreases s.len(),
{
    if s.len() > 0 && is_digit(s[0]) {
        lemma_digit_run_le(s.skip(1));
    }
}

/// The digit run ends exactly at the first position that is not a digit.
proof fn lemma_digit_run_at(s: Seq<char>, k: int)
    requires
        0 <= k <= s.len(),
        forall|m: int| 0 <= m < k ==> is_digit(s[m]),
        k == s.len() || !is_digit(s[k]),
    ensures
        spec_digit_run(s) == k,
    decreases k,
{
    if k > 0 {
        assert(is_digit(s[0]));
        assert(forall|m: int| 0 <= m < k - 1 ==> is_digit(s.skip(1)[m]));
        if k < s.len() {
            assert(s.skip(1)[k - 1] == s[k]);
        }
        lemma_digit_run_at(s.skip(1), k - 1);
    }
}

/// The numeric value of a sequence of decimal digit characters, most
/// significant first.
pub open spec fn spec_digits_value(s: Seq<char>) -> int
    decreases s.len(),
{
    if s.len() == 0 {
        0
    } else {
        spec_digits_value(s.take(s.len() - 1)) * 10 + digit_val(s[s.len() - 1])
    }
}

/// The value of a digit sequence is never negative.
proof fn lemma_digits_value_nonneg(s: Seq<char>)
    ensures
        spec_digits_value(s) >= 0,
    decreases s.len(),
{
    if s.len() > 0 {
        lemma_digits_value_nonneg(s.take(s.len() - 1));
    }
}

/// The template scanned left to right: each `$` followed by a run of
/// digits is a placeholder and becomes the named capture group's text —
/// the empty string when the group is absent — and every other character
/// is kept as it stands.
pub open spec fn spec_scan_subst(s: Seq<char>, groups: Seq<Option<Seq<char>>>) -> Seq<char>
    decreases s.len(),
    via spec_scan_subst_dec
{
    if s.len() == 0 {
        Seq::empty()
    } else if s[0] == '$' && spec_digit_run(s.skip(1)) > 0 {
        let k = spec_digit_run(s.skip(1));
        spec_group_text(groups, spec_digits_value(s.skip(1).take(k))) + spec_scan_subst(
            s.skip(1 + k),
            groups,
        )
    } else {
        seq![s[0]] + spec_scan_subst(s.skip(1), groups)
    }
}

#[via_fn]
proof fn spec_scan_subst_dec(s: Seq<char>, groups: Seq<Option<Seq<char>>>) {
    if s.len() > 0 {
        lemma_digit_run_le(s.skip(1));
    }
}

/// The substituted form of a template: a template without a placeholder
/// marker is a literal value, kept verbatim; otherwise every placeholder
/// is replaced by its group's text and the result is trimmed of
/// surrounding whitespace.
pub open spec fn spec_substitute(t: Seq<char>, groups: Seq<Option<Seq<char>>>) -> Seq<char> {
    if t.contains('$') && groups.len() > 0 {
        spec_trim(spec_scan_subst(t, groups))
    } else {
        t
    }
}

/// Absent instead of empty: the canonical form of an extracted field.
pub open spec fn spec_none_if_empty(s: Seq<char>) -> Option<Seq<char>> {
    if s.len() == 0 {
        None
    } else {
        Some(s)
    }
}

/// Returns `Some(s)` when `s` is non-empty, `None` otherwise: extracted
/// fields are never an empty string.
pub fn none_if_empty(s: String) -> (r: Option<String>)
    ensures
        opt_view(r) == spec_none_if_empty(s@),
{
    if s.as_str().unicode_len() > 0 {
        Some(s)
    } else {
        None
    }
}

fn contains_dollar(v: &Vec<char>) -> (b: bool)
    ensures
        b == v@.contains('$'),
{
    let mut i: usize = 0;
    while i < v.len()
        invariant
            i <= v.len(),
            forall|k: int| 0 <= k < i ==> v@[k] != '$',
        decreases v.len() - i,
    {
        if v[i] == '$' {
            return true;
        }
        i = i + 1;
    }
    false
}

fn group_text(groups: &Vec<Option<String>>, i: usize) -> (r: Vec<char>)
    ensures
        r@ == spec_group_text(groups_view(groups@), i as int),
{
    if i < groups.len() {
        match &groups[i] {
            Some(s) => chars_vec(s.as_str()),
            None => Vec::new(),
        }
    } else {
        Vec::new()
    }
}

/// Reads the run of digits in `s` starting at `start`. Returns the end of
/// the run and the run's numeric value; a value too large for `usize` —
/// larger than any capture list — is reported instead of computed.
fn parse_digit_run(s: &Vec<char>, start: usize) -> (r: (usize, bool, usize))
    requires
        start <= s.len(),
    ensures
        ({
            let run = spec_digit_run(s@.skip(start as int));
            let value = spec_digits_value(s@.subrange(start as int, start + run));
            &&& r.2 == start + run
            &&& !r.1 ==> r.0 == value
            &&& r.1 ==> value > usize::MAX
        }),
{
    let mut j: usize = start;
    let mut n: usize = 0;
    let mut ovf: bool = false;
    proof {
        assert(s@.subrange(start as int, start as int) =~= Seq::<char>::empty());
    }
    while j < s.len() && is_digit_ex(s[j])
        invariant
            start <= j <= s.len(),
            forall|m: int| start <= m < j ==> is_digit(s@[m]),
            !ovf ==> n == spec_digits_value(s@.subrange(start as int, j as int)),
            ovf ==> spec_digits_value(s@.subrange(start as int, j as int)) > usize::MAX,
        decreases s.len() - j,
    {
        let d = digit_val_ex(s[j]);
        proof {
            let pre = s@.subrange(start as int, j as int);
            let post = s@.subrange(start as int, j + 1);
            assert(post.take(post.len() - 1) =~= pre);
            assert(post[post.len() - 1] == s@[j as int]);
            assert(spec_digits_value(post) == spec_digits_value(pre) * 10 + digit_val(s@[j as int]));
            lemma_digits_value_nonneg(pre);
        }
        if !ovf && n <= (usize::MAX - d) / 10 {
            n = n * 10 + d;
        } else {
            ovf = true;
        }
        j = j + 1;
    }
    proof {
        let rest = s@.skip(start as int);
        assert(forall|m: int| 0 <= m < j - start ==> is_digit(#[trigger] rest[m]));
        if j < s.len() {
            assert(rest[j - start] == s@[j as int]);
        }
        lemma_digit_run_at(rest, j - start);
    }
    (n, ovf, j)
}

/// Substitutes capture-group text for every `$n` placeholder of
/// `template`; a template containing no placeholder marker is returned
/// verbatim.
pub fn substitute(template: &str, groups: &Vec<Option<String>>) -> (r: String)
    ensures
        r@ == spec_substitute(template@, groups_view(groups@)),
{
    let tv = chars_vec(template);
    if contains_dollar(&tv) && groups.len() > 0 {
        let ghost gv = groups_view(groups@);
        let mut out: Vec<char> = Vec::new();
        let mut i: usize = 0;
        proof {
            assert(tv@.skip(0) =~= tv@);
            assert(Seq::<char>::empty() + spec_scan_subst(tv@, gv) =~= spec_scan_subst(tv@, gv));
        }
        while i < tv.len()
            invariant
                i <= tv.len(),
                gv == groups_view(groups@),
                gv.len() == groups.len(),
                spec_scan_subst(tv@, gv) == out@ + spec_scan_subst(tv@.skip(i as int), gv),
            decreases tv.len() - i,
        {
            let ghost rest = tv@.skip(i as int);
            proof {
                assert(rest[0] == tv@[i as int]);
                assert(rest.skip(1) =~= tv@.skip(i + 1));
            }
            if tv[i] == '$' && i + 1 < tv.len() && is_digit_ex(tv[i + 1]) {
                let (n, ovf, j) = parse_digit_run(&tv, i + 1);
                let ghost k = spec_digit_run(tv@.skip(i + 1));
                let ghost value = spec_digits_value(tv@.subrange(i + 1, i + 1 + k));
                proof {
                    assert(rest.skip(1)[0] == tv@[i + 1]);
                    lemma_digit_run_le(rest.skip(1).skip(1));
                    assert(spec_digit_run(rest.skip(1)) == 1 + spec_digit_run(rest.skip(1).skip(1)));
                    lemma_digit_run_le(rest.skip(1));
                    assert(spec_digit_run(rest.skip(1)) == k && k > 0);
                    assert(0 <= k <= rest.skip(1).len());
                    assert(rest.skip(1).take(k) =~= tv@.subrange(i + 1, i + 1 + k));
                    assert(rest.skip(1 + k) =~= tv@.skip(j as int));
                    assert(spec_scan_subst(rest, gv) == spec_group_text(gv, value)
                        + spec_scan_subst(tv@.skip(j as int), gv));
                    if ovf {
                        assert(spec_group_text(gv, value) =~= Seq::<char>::empty());
                    }
                }
                let g = if ovf {
                    Vec::new()
                } else {
                    group_text(groups, n)
                };
                proof {
                    assert(g@ == spec_group_text(gv, value));
                    assert((out@ + g@) + spec_scan_subst(tv@.skip(j as int), gv) =~= out@ + (g@
                        + spec_scan_subst(tv@.skip(j as int), gv)));
                }
                push_all(&mut out, &g);
                i = j;
            } else {
                proof {
                    if rest[0] == '$' {
                        if i + 1 < tv@.len() {
                            assert(rest.skip(1)[0] == tv@[i + 1]);
                        }
                        assert(spec_digit_run(rest.skip(1)) == 0);
                    }
                    assert(spec_scan_subst(rest, gv) == seq![tv@[i as int]] + spec_scan_subst(
                        tv@.skip(i + 1),
                        gv,
                    ));
                    assert((out@ + seq![tv@[i as int]]) + spec_scan_subst(tv@.skip(i + 1), gv)
                        =~= out@ + (seq![tv@[i as int]] + spec_scan_subst(tv@.skip(i + 1), gv)));
                    assert(out@.push(tv@[i as int]) =~= out@ + seq![tv@[i as int]]);
                }
                out.push(tv[i]);
                i = i + 1;
            }
        }
        proof {
            assert(tv@.skip(tv@.len() as int) =~= Seq::<char>::empty());
            assert(out@ + Seq::<char>::empty() =~= out@);
        }
        let trimmed = trim(&out);
        string_from_chars(&trimmed)
    } else {
        string_from_chars(&tv)
    }
}

/// Maps an optional group index into the specification world.
pub open spec fn opt_idx(o: Option<usize>) -> Option<int> {
    match o {
        Some(g) => Some(g as int),
        None => None,
    }
}

/// The value of one output field: the substituted template when one is
/// configured, else the text of the designated default capture group when
/// that group participated; an empty result is reported as absent.
pub open spec fn spec_field(
    template: Option<Seq<char>>,
    groups: Seq<Option<Seq<char>>>,
    default_group: Option<int>,
) -> Option<Seq<char>> {
    match template {
        Some(t) => spec_none_if_empty(spec_substitute(t, groups)),
        None => match default_group {
            Some(g) => if 0 <= g < groups.len() && groups[g] is Some {
                spec_none_if_empty(groups[g].unwrap())
            } else {
                None
            },
            None => None,
        },
    }
}

/// An extracted field is never an empty-but-present string: whatever the
/// template, the captures and the default group, it is either absent or
/// holds a non-empty text.
pub proof fn lemma_field_never_empty(
    template: Option<Seq<char>>,
    groups: Seq<Option<Seq<char>>>,
    default_group: Option<int>,
)
    ensures
        (match spec_field(template, groups, default_group) {
            Some(s) => s.len() > 0,
            None => true,
        }),
{
}

/// A substituted field whose substitution result consists only of
/// whitespace is reported absent, never as an empty-but-present string:
/// trimming reduces it to the empty text, and the empty text maps to
/// absence.
pub proof fn lemma_whitespace_means_absent(
    t: Seq<char>,
    groups: Seq<Option<Seq<char>>>,
    default_group: Option<int>,
)
    requires
        t.contains('$'),
        groups.len() > 0,
        forall|i: int|
            0 <= i < spec_scan_subst(t, groups).len() ==> crate::text::is_space(
                spec_scan_subst(t, groups)[i],
            ),
    ensures
        spec_field(Some(t), groups, default_group) is None,
{
    crate::text::lemma_trim_all_space(spec_scan_subst(t, groups));
}

/// Extracts one output field from a capture list, per `spec_field`.
pub fn extract_field(
    template: &Option<String>,
    groups: &Vec<Option<String>>,
    default_group: Option<usize>,
) -> (r: Option<String>)
    ensures
        opt_view(r) == spec_field(
            opt_view(*template),
            groups_view(groups@),
            opt_idx(default_group),
        ),
{
    match template {
        Some(t) => none_if_empty(substitute(t.as_str(), groups)),
        None => match default_group {
            Some(g) => {
                if g < groups.len() {
                    match &groups[g] {
                        Some(s) => none_if_empty(s.clone()),
                        None => None,
                    }
                } else {
                    None
                }
            },
            None => None,
        },
    }
}

} // verus!
