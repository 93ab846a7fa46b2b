//! Placeholder scanning and kind inference.
//!
//! A template is text with placeholders in braces. `{{` is an escaped brace
//! and opens nothing; any other `{` opens a placeholder, whose body runs up
//! to the next `}`. A body with a colon carries a specifier, and the last
//! character of the body is the specifier letter. A `{` that is never closed
//! ends the scan: it and the text after it hold no placeholder.

use vstd::prelude::*;
use crate::kind::Kind;

verus! {

/// The position of the first `}` at or after `from`, or the length of `s`
/// when there is none.
pub open spec fn closing_brace(s: Seq<char>, from: int) -> int
    decreases s.len() - from,
{
    if from < 0 || from >= s.len() {
        s.len() as int
    } else if s[from] == '}' {
        from
    } else {
        closing_brace(s, from + 1)
    }
}

/// The bodies of the placeholders that start at or after `from`, in order.
pub open spec fn placeholders_from(s: Seq<char>, from: int) -> Seq<Seq<char>>
    decreases s.len() - from,
    via placeholders_from_decreases
{
    if from < 0 || from >= s.len() {
        Seq::empty()
    } else if s[from] != '{' {
        placeholders_from(s, from + 1)
    } else if from + 1 < s.len() && s[from + 1] == '{' {
        placeholders_from(s, from + 2)
    } else {
        let close = closing_brace(s, from + 1);
        if close >= s.len() {
            Seq::empty()
        } else {
            seq![s.subrange(from + 1, close)] + placeholders_from(s, close + 1)
        }
    }
}

#[via_fn]
proof fn placeholders_from_decreases(s: Seq<char>, from: int) {
    if 0 <= from < s.len() {
        lemma_closing_brace_bounds(s, from + 1);
    }
}

/// A closing brace is never found before the position the search starts at.
pub proof fn lemma_closing_brace_bounds(s: Seq<char>, from: int)
    requires
        0 <= from <= s.len(),
    ensures
        from <= closing_brace(s, from) <= s.len(),
        closing_brace(s, from) < s.len() ==> s[closing_brace(s, from)] == '}',
    decreases s.len() - from,
{
    if from < s.len() && s[from] != '}' {
        lemma_closing_brace_bounds(s, from + 1);
    }
}

/// The bodies of all placeholders of a template, in order.
pub open spec fn placeholders(s: Seq<char>) -> Seq<Seq<char>> {
    placeholders_from(s, 0)
}

/// The kind one placeholder asks for: `Display` when its body has no colon,
/// else the kind selected by the body's last character.
pub open spec fn placeholder_kind(body: Seq<char>) -> Kind {
    if body.contains(':') {
        Kind::of_letter(body.last())
    } else {
        Kind::Display
    }
}

/// The kinds asked for by the placeholders of a template, in order.
pub open spec fn placeholder_kinds(s: Seq<char>) -> Seq<Kind> {
    placeholders(s).map_values(|body: Seq<char>| placeholder_kind(body))
}

/// There is at least one kind and every one of them is `Debug`.
pub open spec fn all_debug(kinds: Seq<Kind>) -> bool {
    &&& kinds.len() > 0
    &&& forall|i: int| 0 <= i < kinds.len() ==> kinds[i] == Kind::Debug
}

/// `k` is exotic, occurs among `kinds`, and is the only exotic kind there.
pub open spec fn sole_exotic(kinds: Seq<Kind>, k: Kind) -> bool {
    &&& k.is_exotic()
    &&& kinds.contains(k)
    &&& forall|i: int| 0 <= i < kinds.len() && (#[trigger] kinds[i]).is_exotic() ==> kinds[i] == k
}

/// The kind a wrapper is bound to, given the kinds its placeholders ask for:
/// `Debug` when all of them ask for it, else the one exotic kind present,
/// else `Display`.
pub open spec fn classify(kinds: Seq<Kind>) -> Kind {
    if all_debug(kinds) {
        Kind::Debug
    } else if exists|k: Kind| sole_exotic(kinds, k) {
        choose|k: Kind| sole_exotic(kinds, k)
    } else {
        Kind::Display
    }
}

/// The kind inferred for a template.
pub open spec fn kind_of(s: Seq<char>) -> Kind {
    classify(placeholder_kinds(s))
}

/// Where the scan stands between two characters.
enum Scan {
    /// Outside any placeholder.
    Text,
    /// Just behind a `{` that may still be an escape.
    Opened,
    /// Inside a placeholder body, of which at least one character was read.
    Inside { colon: bool, last: char },
}

spec fn scan_inv(s: Seq<char>, i: int, state: Scan, start: int, bodies: Seq<Seq<char>>) -> bool {
    &&& 0 <= i <= s.len()
    &&& match state {
        Scan::Text => placeholders(s) == bodies + placeholders_from(s, i),
        Scan::Opened => {
            &&& i >= 1
            &&& s[i - 1] == '{'
            &&& placeholders(s) == bodies + placeholders_from(s, i - 1)
        },
        Scan::Inside { colon, last } => {
            &&& 1 <= start < i
            &&& s[start - 1] == '{'
            &&& s[start] != '{'
            &&& forall|j: int| start <= j < i ==> s[j] != '}'
            &&& colon == s.subrange(start, i).contains(':')
            &&& last == s[i - 1]
            &&& placeholders(s) == bodies + placeholders_from(s, start - 1)
        },
    }
}

proof fn lemma_closing_brace_skips(s: Seq<char>, from: int, to: int)
    requires
        0 <= from <= to <= s.len(),
        forall|j: int| from <= j < to ==> s[j] != '}',
    ensures
        closing_brace(s, from) == closing_brace(s, to),
    decreases to - from,
{
    if from < to {
        lemma_closing_brace_skips(s, from + 1, to);
    }
}

proof fn lemma_contains_push(body: Seq<char>, c: char, x: char)
    ensures
        body.push(c).contains(x) == (body.contains(x) || c == x),
{
    let longer = body.push(c);
    if body.contains(x) {
        let i = choose|i: int| 0 <= i < body.len() && body[i] == x;
        assert(longer[i] == x);
    }
    if c == x {
        assert(longer[body.len() as int] == x);
    }
    if longer.contains(x) {
        let i = choose|i: int| 0 <= i < longer.len() && longer[i] == x;
        if i < body.len() {
            assert(body[i] == x);
        }
    }
}

/// The kinds asked for by the placeholders of `template`, in order.
pub fn scan_placeholders(template: &str) -> (kinds: Vec<Kind>)
    ensures
        kinds@ == placeholder_kinds(template@),
{
    let ghost s = template@;
    let mut kinds: Vec<Kind> = Vec::new();
    let mut state = Scan::Text;
    let ghost mut start: int = 0;
    let ghost mut bodies: Seq<Seq<char>> = Seq::empty();
    proof {
        assert(bodies + placeholders_from(s, 0) =~= placeholders(s));
    }
    for c in it: template.chars()
        invariant
            s == template@,
            it.seq() == s,
            scan_inv(s, it.index() as int, state, start, bodies),
            kinds@ =~= bodies.map_values(|body: Seq<char>| placeholder_kind(body)),
    {
        let ghost i = it.index() as int;
        assert(c == s[i]);
        match state {
            Scan::Text => {
                if c == '{' {
                    state = Scan::Opened;
                }
            },
            Scan::Opened => {
                if c == '{' {
                    state = Scan::Text;
                } else if c == '}' {
                    proof {
                        let body = s.subrange(i, i);
                        assert(closing_brace(s, i) == i);
                        assert(!body.contains(':'));
                        assert(bodies.push(body) + placeholders_from(s, i + 1) =~= bodies + (
                        seq![body] + placeholders_from(s, i + 1)));
                        bodies = bodies.push(body);
                    }
                    kinds.push(Kind::Display);
                    state = Scan::Text;
                } else {
                    proof {
                        start = i;
                        assert(s.subrange(i, i + 1) =~= Seq::<char>::empty().push(c));
                        lemma_contains_push(Seq::<char>::empty(), c, ':');
                    }
                    state = Scan::Inside { colon: c == ':', last: c };
                }
            },
            Scan::Inside { colon, last } => {
                if c == '}' {
                    let kind = if colon {
                        Kind::from_letter(last)
                    } else {
                        Kind::Display
                    };
                    proof {
                        let body = s.subrange(start, i);
                        lemma_closing_brace_skips(s, start, i);
                        assert(closing_brace(s, i) == i);
                        assert(body.last() == last);
                        assert(kind == placeholder_kind(body));
                        assert(bodies.push(body) + placeholders_from(s, i + 1) =~= bodies + (
                        seq![body] + placeholders_from(s, i + 1)));
                        bodies = bodies.push(body);
                    }
                    kinds.push(kind);
                    state = Scan::Text;
                } else {
                    proof {
                        assert(s.subrange(start, i + 1) =~= s.subrange(start, i).push(c));
                        lemma_contains_push(s.subrange(start, i), c, ':');
                    }
                    state = Scan::Inside { colon: colon || c == ':', last: c };
                }
            },
        }
    }
    proof {
        let n = s.len() as int;
        match state {
            Scan::Text => {},
            Scan::Opened => {
                assert(closing_brace(s, n) == n);
            },
            Scan::Inside { colon, last } => {
                lemma_closing_brace_skips(s, start, n);
                assert(closing_brace(s, n) == n);
            },
        }
        assert(bodies =~= placeholders(s));
    }
    kinds
}

/// The kind a wrapper is bound to, given the kinds its placeholders ask for.
pub fn classify_kinds(kinds: &[Kind]) -> (k: Kind)
    ensures
        k == classify(kinds@),
{
    let ghost ks = kinds@;
    let mut only_debug: bool = true;
    let mut exotic: Option<Kind> = None;
    let mut mixed: bool = false;
    let mut i: usize = 0;
    while i < kinds.len()
        invariant
            ks == kinds@,
            i <= ks.len(),
            only_debug == (forall|j: int| 0 <= j < i ==> ks[j] == Kind::Debug),
            exotic is None ==> forall|j: int| 0 <= j < i ==> !(#[trigger] ks[j]).is_exotic(),
            exotic is Some ==> exotic->0.is_exotic() && exists|j: int|
                0 <= j < i && ks[j] == exotic->0,
            mixed ==> exotic is Some && exists|j: int|
                0 <= j < i && (#[trigger] ks[j]).is_exotic() && ks[j] != exotic->0,
            !mixed && exotic is Some ==> forall|j: int|
                0 <= j < i && (#[trigger] ks[j]).is_exotic() ==> ks[j] == exotic->0,
        decreases ks.len() - i,
    {
        let k = kinds[i];
        if k != Kind::Debug {
            only_debug = false;
        }
        if k.exotic() {
            match exotic {
                None => {
                    exotic = Some(k);
                },
                Some(first) => {
                    if first != k {
                        mixed = true;
                    }
                },
            }
        }
        i += 1;
    }
    if kinds.len() > 0 && only_debug {
        Kind::Debug
    } else {
        proof {
            assert(!all_debug(ks));
        }
        match exotic {
            Some(first) => {
                if mixed {
                    proof {
                        lemma_two_exotic_kinds(ks);
                    }
                    Kind::Display
                } else {
                    proof {
                        assert(sole_exotic(ks, first));
                        lemma_sole_exotic_unique(ks, first);
                    }
                    first
                }
            },
            None => {
                proof {
                    lemma_no_exotic_kind(ks);
                }
                Kind::Display
            },
        }
    }
}

/// The one kind a lazy wrapper for `template` is bound to.
pub fn infer_kind(template: &str) -> (k: Kind)
    ensures
        k == kind_of(template@),
{
    let kinds = scan_placeholders(template);
    classify_kinds(kinds.as_slice())
}

proof fn lemma_sole_exotic_unique(kinds: Seq<Kind>, k: Kind)
    requires
        sole_exotic(kinds, k),
    ensures
        !all_debug(kinds),
        classify(kinds) == k,
{
    let at = choose|i: int| 0 <= i < kinds.len() && kinds[i] == k;
    assert(kinds[at] != Kind::Debug);
    let chosen = choose|c: Kind| sole_exotic(kinds, c);
    assert(kinds[at].is_exotic());
    assert(chosen == k);
}

proof fn lemma_no_exotic_kind(kinds: Seq<Kind>)
    requires
        forall|i: int| 0 <= i < kinds.len() ==> !(#[trigger] kinds[i]).is_exotic(),
    ensures
        forall|k: Kind| !sole_exotic(kinds, k),
{
    assert forall|k: Kind| !sole_exotic(kinds, k) by {
        if sole_exotic(kinds, k) {
            let at = choose|i: int| 0 <= i < kinds.len() && kinds[i] == k;
            assert(kinds[at].is_exotic());
        }
    }
}

proof fn lemma_two_exotic_kinds(kinds: Seq<Kind>)
    requires
        exists|i: int, j: int|
            0 <= i < kinds.len() && 0 <= j < kinds.len() && (#[trigger] kinds[i]).is_exotic() && (
            #[trigger] kinds[j]).is_exotic() && kinds[i] != kinds[j],
    ensures
        forall|k: Kind| !sole_exotic(kinds, k),
{
    let (i, j) = choose|i: int, j: int|
        0 <= i < kinds.len() && 0 <= j < kinds.len() && (#[trigger] kinds[i]).is_exotic() && (
        #[trigger] kinds[j]).is_exotic() && kinds[i] != kinds[j];
    assert forall|k: Kind| !sole_exotic(kinds, k) by {
        if sole_exotic(kinds, k) {
            assert(kinds[i] == k);
            assert(kinds[j] == k);
        }
    }
}

/// `classify` yields `Debug` exactly when every kind is `Debug` and there is
/// one at least, an exotic kind exactly when it is the only exotic kind
/// present, and `Display` in every other case.
pub proof fn lemma_classify_cases(kinds: Seq<Kind>)
    ensures
        classify(kinds) == Kind::Debug <==> all_debug(kinds),
        forall|k: Kind| k.is_exotic() ==> (classify(kinds) == k <==> sole_exotic(kinds, k)),
        classify(kinds) == Kind::Display <==> !all_debug(kinds) && forall|k: Kind|
            !sole_exotic(kinds, k),
{
    if all_debug(kinds) {
        assert forall|k: Kind| !sole_exotic(kinds, k) by {
            if sole_exotic(kinds, k) {
                lemma_sole_exotic_unique(kinds, k);
            }
        }
    } else if exists|k: Kind| sole_exotic(kinds, k) {
        let chosen = choose|k: Kind| sole_exotic(kinds, k);
        lemma_sole_exotic_unique(kinds, chosen);
        assert forall|k: Kind| k.is_exotic() && sole_exotic(kinds, k) implies classify(kinds)
            == k by {
            lemma_sole_exotic_unique(kinds, k);
        }
    }
}

/// A template that has placeholders, every one of them with a specifier that
/// ends in `?`, is bound to `Debug`.
pub proof fn lemma_debug_only_template(template: Seq<char>)
    requires
        placeholders(template).len() > 0,
        forall|i: int|
            0 <= i < placeholders(template).len() ==> {
                let body = #[trigger] placeholders(template)[i];
                body.contains(':') && body.last() == '?'
            },
    ensures
        kind_of(template) == Kind::Debug,
{
    let kinds = placeholder_kinds(template);
    assert forall|i: int| 0 <= i < kinds.len() implies kinds[i] == Kind::Debug by {
        let body = placeholders(template)[i];
        assert(body.contains(':') && body.last() == '?');
    }
    assert(all_debug(kinds));
}

/// A template in which one exotic kind is asked for, wherever it stands, and
/// whose other placeholders ask for `Debug` or `Display`, is bound to that
/// exotic kind.
pub proof fn lemma_single_exotic_template(template: Seq<char>, k: Kind)
    requires
        k.is_exotic(),
        placeholder_kinds(template).contains(k),
        forall|i: int|
            0 <= i < placeholder_kinds(template).len() ==> {
                let asked = #[trigger] placeholder_kinds(template)[i];
                asked == k || asked == Kind::Debug || asked == Kind::Display
            },
    ensures
        kind_of(template) == k,
{
    let kinds = placeholder_kinds(template);
    assert forall|i: int| 0 <= i < kinds.len() && (#[trigger] kinds[i]).is_exotic() implies kinds[i]
        == k by {
        let asked = placeholder_kinds(template)[i];
        assert(asked == k || asked == Kind::Debug || asked == Kind::Display);
    }
    assert(sole_exotic(kinds, k));
    lemma_sole_exotic_unique(kinds, k);
}

/// A template that asks for two different exotic kinds is bound to `Display`.
pub proof fn lemma_mixed_exotic_template(template: Seq<char>, i: int, j: int)
    requires
        0 <= i < placeholder_kinds(template).len(),
        0 <= j < placeholder_kinds(template).len(),
        placeholder_kinds(template)[i].is_exotic(),
        placeholder_kinds(template)[j].is_exotic(),
        placeholder_kinds(template)[i] != placeholder_kinds(template)[j],
    ensures
        kind_of(template) == Kind::Display,
{
    let kinds = placeholder_kinds(template);
    assert(kinds[i].is_exotic() && kinds[j].is_exotic() && kinds[i] != kinds[j]);
    lemma_two_exotic_kinds(kinds);
    assert(kinds[i] != Kind::Debug);
}

/// A template without placeholders, or whose placeholders all lack a
/// specifier letter, is bound to `Display`.
pub proof fn lemma_plain_template(template: Seq<char>)
    requires
        forall|i: int|
            0 <= i < placeholder_kinds(template).len() ==> #[trigger] placeholder_kinds(
                template,
            )[i] == Kind::Display,
    ensures
        kind_of(template) == Kind::Display,
{
    let kinds = placeholder_kinds(template);
    assert forall|i: int| 0 <= i < kinds.len() implies !(#[trigger] kinds[i]).is_exotic() by {
        assert(placeholder_kinds(template)[i] == Kind::Display);
    }
    lemma_no_exotic_kind(kinds);
    if kinds.len() > 0 {
        assert(placeholder_kinds(template)[0] == Kind::Display);
    }
}

/// The inferred kind is a function of the template's text alone: the same
/// text is bound to the same kind, however often it is classified.
pub proof fn lemma_kind_of_is_pure(first: Seq<char>, second: Seq<char>)
    requires
        first =~= second,
    ensures
        kind_of(first) == kind_of(second),
{
}

/// The inferred kind depends only on which kinds are asked for, not on the
/// order of the placeholders nor on how often a kind recurs.
pub proof fn lemma_classify_ignores_order(first: Seq<Kind>, second: Seq<Kind>)
    requires
        forall|k: Kind| first.contains(k) <==> second.contains(k),
    ensures
        classify(first) == classify(second),
{
    lemma_same_members(first, second);
    lemma_same_members(second, first);
    lemma_classify_cases(first);
    lemma_classify_cases(second);
    if !all_debug(first) {
        if exists|k: Kind| sole_exotic(first, k) {
            let k = choose|k: Kind| sole_exotic(first, k);
            lemma_sole_exotic_unique(first, k);
            lemma_sole_exotic_unique(second, k);
        } else {
            assert forall|k: Kind| !sole_exotic(second, k) by {
                if sole_exotic(second, k) {
                    assert(sole_exotic(first, k));
                }
            }
        }
    }
}

proof fn lemma_same_members(first: Seq<Kind>, second: Seq<Kind>)
    requires
        forall|k: Kind| first.contains(k) <==> second.contains(k),
    ensures
        all_debug(first) ==> all_debug(second),
        forall|k: Kind| sole_exotic(first, k) ==> sole_exotic(second, k),
{
    if all_debug(first) {
        assert(first.contains(first[0]));
        let at = choose|i: int| 0 <= i < second.len() && second[i] == first[0];
        assert forall|i: int| 0 <= i < second.len() implies second[i] == Kind::Debug by {
            assert(second.contains(second[i]));
            let back = choose|j: int| 0 <= j < first.len() && first[j] == second[i];
        }
    }
    assert forall|k: Kind| sole_exotic(first, k) implies sole_exotic(second, k) by {
        assert forall|i: int| 0 <= i < second.len() && (#[trigger] second[i]).is_exotic() implies second[i]
            == k by {
            assert(second.contains(second[i]));
            let back = choose|j: int| 0 <= j < first.len() && first[j] == second[i];
            assert(first[back].is_exotic());
        }
    }
}

} // verus!
