//! The order in which local names are planned: pages last, names ascending within each group.
use vstd::prelude::*;
use crate::text::{chars_of, has_suffix, is_suffix};

verus! {

/// The name ends in `.html` or `.htm`.
pub open spec fn is_html(s: Seq<char>) -> bool {
    is_suffix(seq!['.', 'h', 't', 'm', 'l'], s) || is_suffix(seq!['.', 'h', 't', 'm'], s)
}

/// Lexicographic order on characters by scalar value, which is the order of `str`.
pub open spec fn lex_lt(a: Seq<char>, b: Seq<char>) -> bool
    decreases a.len(),
{
    if a.len() == 0 {
        b.len() > 0
    } else if b.len() == 0 {
        false
    } else if a[0] != b[0] {
        a[0] < b[0]
    } else {
        lex_lt(a.drop_first(), b.drop_first())
    }
}

/// `a` is planned before `b`: pages after everything else, then by name.
pub open spec fn sorts_before(a: Seq<char>, b: Seq<char>) -> bool {
    (!is_html(a) && is_html(b)) || (is_html(a) == is_html(b) && lex_lt(a, b))
}

/// `s` is strictly ascending in planning order.
pub open spec fn planning_sorted(s: Seq<Seq<char>>) -> bool {
    forall|i: int, j: int| 0 <= i < j < s.len() ==> sorts_before(#[trigger] s[i], #[trigger] s[j])
}

pub proof fn lemma_lex_irreflexive(a: Seq<char>)
    ensures
        !lex_lt(a, a),
    decreases a.len(),
{
    if a.len() > 0 {
        lemma_lex_irreflexive(a.drop_first());
    }
}

pub proof fn lemma_lex_total(a: Seq<char>, b: Seq<char>)
    requires
        a != b,
    ensures
        lex_lt(a, b) || lex_lt(b, a),
    decreases a.len(),
{
    if a.len() > 0 && b.len() > 0 && a[0] == b[0] {
        if a.drop_first() == b.drop_first() {
            assert(a =~= seq![a[0]] + a.drop_first());
            assert(b =~= seq![b[0]] + b.drop_first());
        }
        lemma_lex_total(a.drop_first(), b.drop_first());
    } else if a.len() == 0 && b.len() == 0 {
        assert(a =~= b);
    }
}

pub proof fn lemma_lex_asymmetric(a: Seq<char>, b: Seq<char>)
    ensures
        !(lex_lt(a, b) && lex_lt(b, a)),
    decreases a.len(),
{
    if a.len() > 0 && b.len() > 0 && a[0] == b[0] {
        lemma_lex_asymmetric(a.drop_first(), b.drop_first());
    }
}

pub proof fn lemma_lex_transitive(a: Seq<char>, b: Seq<char>, c: Seq<char>)
    requires
        lex_lt(a, b),
        lex_lt(b, c),
    ensures
        lex_lt(a, c),
    decreases a.len(),
{
    if a.len() > 0 && b.len() > 0 && c.len() > 0 && a[0] == b[0] && b[0] == c[0] {
        lemma_lex_transitive(a.drop_first(), b.drop_first(), c.drop_first());
    }
}

pub proof fn lemma_sorts_before_total(a: Seq<char>, b: Seq<char>)
    requires
        a != b,
    ensures
        sorts_before(a, b) || sorts_before(b, a),
{
    lemma_lex_total(a, b);
}

pub proof fn lemma_sorts_before_asymmetric(a: Seq<char>, b: Seq<char>)
    ensures
        !(sorts_before(a, b) && sorts_before(b, a)),
{
    lemma_lex_asymmetric(a, b);
}

pub proof fn lemma_sorts_before_transitive(a: Seq<char>, b: Seq<char>, c: Seq<char>)
    requires
        sorts_before(a, b),
        sorts_before(b, c),
    ensures
        sorts_before(a, c),
{
    if lex_lt(a, b) && lex_lt(b, c) {
        lemma_lex_transitive(a, b, c);
    }
}

/// Whether a name ends in `.html` or `.htm`.
pub fn is_html_name(s: &[char]) -> (r: bool)
    ensures
        r == is_html(s@),
{
    let html = ['.', 'h', 't', 'm', 'l'];
    let htm = ['.', 'h', 't', 'm'];
    assert(html@ =~= seq!['.', 'h', 't', 'm', 'l']);
    assert(htm@ =~= seq!['.', 'h', 't', 'm']);
    has_suffix(&html, s) || has_suffix(&htm, s)
}

/// Lexicographic comparison of two names.
pub fn name_lt(a: &[char], b: &[char]) -> (r: bool)
    ensures
        r == lex_lt(a@, b@),
{
    let mut i: usize = 0;
    assert(a@.skip(0) =~= a@);
    assert(b@.skip(0) =~= b@);
    while i < a.len() && i < b.len()
        invariant
            i <= a@.len(),
            i <= b@.len(),
            lex_lt(a@, b@) == lex_lt(a@.skip(i as int), b@.skip(i as int)),
        decreases a@.len() - i,
    {
        if a[i] != b[i] {
            return a[i] < b[i];
        }
        assert(a@.skip(i as int).drop_first() =~= a@.skip(i + 1));
        assert(b@.skip(i as int).drop_first() =~= b@.skip(i + 1));
        i += 1;
    }
    i < b.len()
}

/// Whether the name `a` is planned before the name `b`.
pub fn plans_before(a: &String, b: &String) -> (r: bool)
    ensures
        r == sorts_before(a@, b@),
{
    let ca = chars_of(a.as_str());
    let cb = chars_of(b.as_str());
    let ha = is_html_name(&ca);
    let hb = is_html_name(&cb);
    if ha != hb {
        hb
    } else {
        name_lt(&ca, &cb)
    }
}

/// Sorts distinct names into planning order.
pub fn sort_for_planning(names: Vec<String>) -> (r: Vec<String>)
    requires
        names@.map_values(|s: String| s@).no_duplicates(),
    ensures
        r@.len() == names@.len(),
        r@.map_values(|s: String| s@).no_duplicates(),
        r@.map_values(|s: String| s@).to_set() == names@.map_values(|s: String| s@).to_set(),
        planning_sorted(r@.map_values(|s: String| s@)),
{
    let ghost src = names@.map_values(|s: String| s@);
    let mut out: Vec<String> = Vec::new();
    let mut k: usize = 0;
    while k < names.len()
        invariant
            k <= names@.len(),
            src == names@.map_values(|s: String| s@),
            src.no_duplicates(),
            out@.len() == k,
            out@.map_values(|s: String| s@).to_set() == src.subrange(0, k as int).to_set(),
            out@.map_values(|s: String| s@).no_duplicates(),
            planning_sorted(out@.map_values(|s: String| s@)),
        decreases names@.len() - k,
    {
        let x = names[k].clone();
        let ghost os = out@.map_values(|s: String| s@);
        proof {
            assert(!os.contains(x@)) by {
                if os.contains(x@) {
                    assert(os.to_set().contains(x@));
                    assert(src.subrange(0, k as int).to_set().contains(x@));
                    let j = choose|j: int| 0 <= j < k && src.subrange(0, k as int)[j] == x@;
                    assert(src[j] == src[k as int]);
                }
            }
        }
        let mut p: usize = 0;
        while p < out.len() && !plans_before(&x, &out[p])
            invariant
                p <= out@.len(),
                os == out@.map_values(|s: String| s@),
                forall|j: int| 0 <= j < p ==> !sorts_before(x@, #[trigger] os[j]),
            decreases out@.len() - p,
        {
            p += 1;
        }
        let ghost xv = x@;
        out.insert(p, x);
        proof {
            let ns = out@.map_values(|s: String| s@);
            assert(ns =~= os.insert(p as int, xv));
            assert forall|j: int| 0 <= j < p implies sorts_before(#[trigger] os[j], xv) by {
                lemma_sorts_before_total(os[j], xv);
            }
            assert forall|j: int| p <= j < os.len() implies sorts_before(xv, #[trigger] os[j]) by {
                if j > p {
                    lemma_sorts_before_transitive(xv, os[p as int], os[j]);
                }
            }
            assert forall|i: int, j: int| 0 <= i < j < ns.len() implies sorts_before(#[trigger] ns[i], #[trigger] ns[j]) by {
                if j < p {
                } else if j == p {
                } else if i < p {
                    lemma_sorts_before_transitive(ns[i], xv, ns[j]);
                } else if i == p {
                } else {
                }
            }
            assert forall|i: int, j: int| 0 <= i < ns.len() && 0 <= j < ns.len() && i != j implies ns[i] != ns[j] by {
                if i < j {
                    lemma_sorts_before_asymmetric(ns[i], ns[j]);
                    lemma_lex_irreflexive(ns[i]);
                } else {
                    lemma_sorts_before_asymmetric(ns[j], ns[i]);
                    lemma_lex_irreflexive(ns[j]);
                }
            }
            assert(src.subrange(0, k + 1) =~= src.subrange(0, k as int).push(xv));
            assert forall|y: Seq<char>| ns.to_set().contains(y) == os.to_set().insert(xv).contains(y) by {
                if ns.contains(y) {
                    let j = choose|j: int| 0 <= j < ns.len() && ns[j] == y;
                    if j < p {
                        assert(os[j] == y);
                    } else if j > p {
                        assert(os[j - 1] == y);
                    }
                }
                if os.contains(y) {
                    let j = choose|j: int| 0 <= j < os.len() && os[j] == y;
                    if j < p {
                        assert(ns[j] == y);
                    } else {
                        assert(ns[j + 1] == y);
                    }
                }
                if y == xv {
                    assert(ns[p as int] == y);
                }
            }
            assert(ns.to_set() =~= os.to_set().insert(xv));
            src.subrange(0, k as int).lemma_push_to_set_commute(xv);
        }
        k += 1;
    }
    proof {
        assert(src.subrange(0, k as int) =~= src);
    }
    out
}

} // verus!
