//! Lexicographic order on strings and stable sorting.

use vstd::prelude::*;
use crate::text::{chars_of, strs, to_lowercase, lowercase_of};

verus! {

/// `a <= b` in the order of `str` (code point by code point, a prefix first).
pub open spec fn seq_le(a: Seq<char>, b: Seq<char>) -> bool
    decreases a.len(),
{
    if a.len() == 0 {
        true
    } else if b.len() == 0 {
        false
    } else if a[0] < b[0] {
        true
    } else if a[0] > b[0] {
        false
    } else {
        seq_le(a.drop_first(), b.drop_first())
    }
}

pub proof fn lemma_seq_le_refl(a: Seq<char>)
    ensures
        seq_le(a, a),
    decreases a.len(),
{
    if a.len() > 0 {
        lemma_seq_le_refl(a.drop_first());
    }
}

pub proof fn lemma_seq_le_total(a: Seq<char>, b: Seq<char>)
    ensures
        seq_le(a, b) || seq_le(b, a),
    decreases a.len(),
{
    if a.len() > 0 && b.len() > 0 && a[0] == b[0] {
        lemma_seq_le_total(a.drop_first(), b.drop_first());
    }
}

pub proof fn lemma_seq_le_trans(a: Seq<char>, b: Seq<char>, c: Seq<char>)
    requires
        seq_le(a, b),
        seq_le(b, c),
    ensures
        seq_le(a, c),
    decreases a.len(),
{
    if a.len() > 0 && b.len() > 0 && c.len() > 0 {
        if a[0] == b[0] && b[0] == c[0] {
            lemma_seq_le_trans(a.drop_first(), b.drop_first(), c.drop_first());
        }
    }
}

pub proof fn lemma_seq_le_antisym(a: Seq<char>, b: Seq<char>)
    requires
        seq_le(a, b),
        seq_le(b, a),
    ensures
        a == b,
    decreases a.len(),
{
    if a.len() > 0 && b.len() > 0 {
        lemma_seq_le_antisym(a.drop_first(), b.drop_first());
        assert(a[0] == b[0]);
        assert(a =~= seq![a[0]] + a.drop_first());
        assert(b =~= seq![b[0]] + b.drop_first());
    } else {
        assert(a =~= b);
    }
}

pub fn str_le(a: &Vec<char>, b: &Vec<char>) -> (r: bool)
    ensures
        r == seq_le(a@, b@),
{
    let mut i: usize = 0;
    assert(a@.skip(0) =~= a@);
    assert(b@.skip(0) =~= b@);
    while i < a.len() && i < b.len() && a[i] == b[i]
        invariant
            i <= a.len(),
            i <= b.len(),
            seq_le(a@, b@) == seq_le(a@.skip(i as int), b@.skip(i as int)),
        decreases a.len() - i,
    {
        assert(a@.skip(i as int).drop_first() =~= a@.skip(i + 1));
        assert(b@.skip(i as int).drop_first() =~= b@.skip(i + 1));
        i += 1;
    }
    assert(a@.skip(i as int).len() == a.len() - i);
    assert(b@.skip(i as int).len() == b.len() - i);
    if i == a.len() {
        true
    } else if i == b.len() {
        false
    } else {
        assert(a@.skip(i as int)[0] == a@[i as int]);
        assert(b@.skip(i as int)[0] == b@[i as int]);
        a[i] < b[i]
    }
}

pub open spec fn sorted_by_le(s: Seq<Seq<char>>) -> bool {
    forall|i: int, j: int| 0 <= i < j < s.len() ==> seq_le(#[trigger] s[i], #[trigger] s[j])
}

/// The strings of `v` in ascending order (a stable sort).
pub fn sort_strings(v: Vec<String>) -> (r: Vec<String>)
    ensures
        strs(r).to_multiset() == strs(v).to_multiset(),
        strs(r).len() == strs(v).len(),
        sorted_by_le(strs(r)),
{
    broadcast use vstd::seq_lib::group_to_multiset_ensures;
    let mut out: Vec<String> = Vec::new();
    let mut keys: Vec<Vec<char>> = Vec::new();
    let mut i: usize = 0;
    assert(strs(v).take(0) =~= Seq::<Seq<char>>::empty());
    assert(strs(out) =~= Seq::<Seq<char>>::empty());
    while i < v.len()
        invariant
            i <= v.len(),
            keys@.len() == out@.len(),
            forall|k: int| 0 <= k < keys@.len() ==> (#[trigger] keys@[k])@ == out@[k]@,
            strs(out).to_multiset() == strs(v).take(i as int).to_multiset(),
            strs(out).len() == i,
            sorted_by_le(strs(out)),
        decreases v.len() - i,
    {
        let x = v[i].clone();
        let xk = chars_of(x.as_str());
        let mut p: usize = 0;
        while p < out.len() && str_le(&keys[p], &xk)
            invariant
                p <= out@.len(),
                keys@.len() == out@.len(),
                forall|k: int| 0 <= k < keys@.len() ==> (#[trigger] keys@[k])@ == out@[k]@,
                forall|k: int| 0 <= k < p ==> seq_le(#[trigger] strs(out)[k], xk@),
            decreases out.len() - p,
        {
            p += 1;
        }
        let ghost so = strs(out);
        proof {
            assert forall|k: int| p <= k < so.len() implies seq_le(xk@, #[trigger] so[k]) by {
                lemma_seq_le_total(so[p as int], xk@);
                if k > p {
                    lemma_seq_le_trans(xk@, so[p as int], so[k]);
                }
            }
        }
        out.insert(p, x);
        keys.insert(p, xk);
        proof {
            let sn = strs(out);
            assert(sn =~= so.insert(p as int, xk@));
            assert(strs(v).take(i + 1) =~= strs(v).take(i as int).push(xk@));
            vstd::seq_lib::to_multiset_insert(so, p as int, xk@);
            vstd::seq_lib::to_multiset_build(strs(v).take(i as int), xk@);
            assert forall|a: int, b: int| 0 <= a < b < sn.len() implies seq_le(
                #[trigger] sn[a],
                #[trigger] sn[b],
            ) by {
                if b < p {
                } else if a < p && b == p {
                } else if a < p && b > p {
                    lemma_seq_le_trans(so[a], xk@, so[b - 1]);
                } else if a == p {
                } else {
                }
            }
            assert forall|k: int| 0 <= k < keys@.len() implies (#[trigger] keys@[k])@ == out@[k]@ by {
                if k < p {
                } else if k == p {
                } else {
                }
            }
        }
        i += 1;
    }
    assert(strs(v).take(v.len() as int) =~= strs(v));
    out
}

/// `(lower-cased a, a) <= (lower-cased b, b)`.
pub open spec fn lower_then_exact_le(a: Seq<char>, b: Seq<char>) -> bool {
    let la = lowercase_of(a);
    let lb = lowercase_of(b);
    (seq_le(la, lb) && la != lb) || (la == lb && seq_le(a, b))
}

pub proof fn lemma_lte_total(a: Seq<char>, b: Seq<char>)
    ensures
        lower_then_exact_le(a, b) || lower_then_exact_le(b, a),
{
    lemma_seq_le_total(lowercase_of(a), lowercase_of(b));
    lemma_seq_le_total(a, b);
}

pub proof fn lemma_lte_trans(a: Seq<char>, b: Seq<char>, c: Seq<char>)
    requires
        lower_then_exact_le(a, b),
        lower_then_exact_le(b, c),
    ensures
        lower_then_exact_le(a, c),
{
    let (la, lb, lc) = (lowercase_of(a), lowercase_of(b), lowercase_of(c));
    if la == lb && lb == lc {
        lemma_seq_le_trans(a, b, c);
    } else if la == lb {
    } else if lb == lc {
    } else {
        lemma_seq_le_trans(la, lb, lc);
        if la == lc {
            lemma_seq_le_antisym(la, lb);
        }
    }
}

pub open spec fn sorted_by_lte(s: Seq<Seq<char>>) -> bool {
    forall|i: int, j: int| 0 <= i < j < s.len() ==> lower_then_exact_le(#[trigger] s[i], #[trigger] s[j])
}

fn lte_exec(a: &Vec<char>, la: &Vec<char>, b: &Vec<char>, lb: &Vec<char>) -> (r: bool)
    requires
        la@ == lowercase_of(a@),
        lb@ == lowercase_of(b@),
    ensures
        r == lower_then_exact_le(a@, b@),
{
    let eq = str_le(la, lb) && str_le(lb, la);
    proof {
        if seq_le(la@, lb@) && seq_le(lb@, la@) {
            lemma_seq_le_antisym(la@, lb@);
        }
        if la@ == lb@ {
            lemma_seq_le_refl(la@);
        }
    }
    if eq {
        str_le(a, b)
    } else {
        str_le(la, lb)
    }
}

/// The strings of `v` ordered by their lower-cased form, then by themselves
/// (a stable sort).
pub fn sort_strings_lower_then_exact(v: Vec<String>) -> (r: Vec<String>)
    ensures
        strs(r).to_multiset() == strs(v).to_multiset(),
        strs(r).len() == strs(v).len(),
        sorted_by_lte(strs(r)),
{
    broadcast use vstd::seq_lib::group_to_multiset_ensures;
    let mut out: Vec<String> = Vec::new();
    let mut keys: Vec<Vec<char>> = Vec::new();
    let mut lows: Vec<Vec<char>> = Vec::new();
    let mut i: usize = 0;
    assert(strs(v).take(0) =~= Seq::<Seq<char>>::empty());
    assert(strs(out) =~= Seq::<Seq<char>>::empty());
    while i < v.len()
        invariant
            i <= v.len(),
            keys@.len() == out@.len(),
            lows@.len() == out@.len(),
            forall|k: int| 0 <= k < keys@.len() ==> (#[trigger] keys@[k])@ == out@[k]@,
            forall|k: int| 0 <= k < lows@.len() ==> (#[trigger] lows@[k])@ == lowercase_of(out@[k]@),
            strs(out).to_multiset() == strs(v).take(i as int).to_multiset(),
            strs(out).len() == i,
            sorted_by_lte(strs(out)),
        decreases v.len() - i,
    {
        let x = v[i].clone();
        let xk = chars_of(x.as_str());
        let xl_s = to_lowercase(x.as_str());
        let xl = chars_of(xl_s.as_str());
        let mut p: usize = 0;
        while p < out.len() && lte_exec(&keys[p], &lows[p], &xk, &xl)
            invariant
                p <= out@.len(),
                keys@.len() == out@.len(),
                lows@.len() == out@.len(),
                xl@ == lowercase_of(xk@),
                forall|k: int| 0 <= k < keys@.len() ==> (#[trigger] keys@[k])@ == out@[k]@,
                forall|k: int| 0 <= k < lows@.len() ==> (#[trigger] lows@[k])@ == lowercase_of(out@[k]@),
                forall|k: int| 0 <= k < p ==> lower_then_exact_le(#[trigger] strs(out)[k], xk@),
            decreases out.len() - p,
        {
            p += 1;
        }
        let ghost so = strs(out);
        proof {
            assert forall|k: int| p <= k < so.len() implies lower_then_exact_le(xk@, #[trigger] so[k]) by {
                lemma_lte_total(so[p as int], xk@);
                if k > p {
                    lemma_lte_trans(xk@, so[p as int], so[k]);
                }
            }
        }
        out.insert(p, x);
        keys.insert(p, xk);
        lows.insert(p, xl);
        proof {
            let sn = strs(out);
            assert(sn =~= so.insert(p as int, xk@));
            assert(strs(v).take(i + 1) =~= strs(v).take(i as int).push(xk@));
            vstd::seq_lib::to_multiset_insert(so, p as int, xk@);
            vstd::seq_lib::to_multiset_build(strs(v).take(i as int), xk@);
            assert forall|a: int, b: int| 0 <= a < b < sn.len() implies lower_then_exact_le(
                #[trigger] sn[a],
                #[trigger] sn[b],
            ) by {
                if a < p && b > p {
                    lemma_lte_trans(so[a], xk@, so[b - 1]);
                }
            }
            assert forall|k: int| 0 <= k < keys@.len() implies (#[trigger] keys@[k])@ == out@[k]@ by {
                if k < p {
                } else if k == p {
                } else {
                }
            }
            assert forall|k: int| 0 <= k < lows@.len() implies (#[trigger] lows@[k])@ == lowercase_of(out@[k]@) by {
                if k < p {
                } else if k == p {
                } else {
                }
            }
        }
        i += 1;
    }
    assert(strs(v).take(v.len() as int) =~= strs(v));
    out
}

} // verus!

verus! {

/// Names of a list of named entries, in order.
pub open spec fn names_of<T>(s: Seq<(String, T)>) -> Seq<Seq<char>> {
    s.map_values(|e: (String, T)| e.0@)
}

/// The entries of `v` ordered by name, entries of equal name in their original order.
pub fn sort_by_name<T>(v: Vec<(String, T)>) -> (r: Vec<(String, T)>)
    ensures
        r@.to_multiset() == v@.to_multiset(),
        r@.len() == v@.len(),
        sorted_by_le(names_of(r@)),
{
    broadcast use vstd::seq_lib::group_to_multiset_ensures;
    let ghost orig = v@;
    assert(orig.len() == v.len());
    let mut rest = v;
    let mut out: Vec<(String, T)> = Vec::new();
    let mut keys: Vec<Vec<char>> = Vec::new();
    let mut i: usize = 0;
    assert(orig.take(0) =~= Seq::<(String, T)>::empty());
    assert(rest@ =~= orig.skip(0));
    while rest.len() > 0
        invariant
            i <= orig.len(),
            rest@ == orig.skip(i as int),
            keys@.len() == out@.len(),
            forall|k: int| 0 <= k < keys@.len() ==> (#[trigger] keys@[k])@ == out@[k].0@,
            out@.to_multiset() == orig.take(i as int).to_multiset(),
            out@.len() == i,
            sorted_by_le(names_of(out@)),
            orig.len() <= usize::MAX,
        decreases rest@.len(),
    {
        assert(orig.skip(i as int).len() == orig.len() - i);
        assert(i < orig.len());
        let x = rest.remove(0);
        assert(x == orig[i as int]);
        assert(rest@ =~= orig.skip(i + 1));
        let xk = chars_of(x.0.as_str());
        let mut p: usize = 0;
        while p < out.len() && str_le(&keys[p], &xk)
            invariant
                p <= out@.len(),
                keys@.len() == out@.len(),
                forall|k: int| 0 <= k < keys@.len() ==> (#[trigger] keys@[k])@ == out@[k].0@,
                forall|k: int| 0 <= k < p ==> seq_le(#[trigger] names_of(out@)[k], xk@),
            decreases out.len() - p,
        {
            p += 1;
        }
        let ghost so = out@;
        let ghost sn_old = names_of(so);
        proof {
            assert forall|k: int| p <= k < sn_old.len() implies seq_le(xk@, #[trigger] sn_old[k]) by {
                lemma_seq_le_total(sn_old[p as int], xk@);
                if k > p {
                    lemma_seq_le_trans(xk@, sn_old[p as int], sn_old[k]);
                }
            }
        }
        out.insert(p, x);
        keys.insert(p, xk);
        proof {
            let sn = names_of(out@);
            assert(out@ =~= so.insert(p as int, x));
            assert(sn =~= sn_old.insert(p as int, xk@));
            assert(orig.take(i + 1) =~= orig.take(i as int).push(x));
            vstd::seq_lib::to_multiset_insert(so, p as int, x);
            vstd::seq_lib::to_multiset_build(orig.take(i as int), x);
            assert forall|a: int, b: int| 0 <= a < b < sn.len() implies seq_le(
                #[trigger] sn[a],
                #[trigger] sn[b],
            ) by {
                if b < p {
                } else if a < p && b == p {
                } else if a < p && b > p {
                    lemma_seq_le_trans(sn_old[a], xk@, sn_old[b - 1]);
                } else if a == p {
                } else {
                }
            }
            assert forall|k: int| 0 <= k < keys@.len() implies (#[trigger] keys@[k])@ == out@[k].0@ by {
                if k < p {
                } else if k == p {
                } else {
                }
            }
        }
        i += 1;
    }
    assert(orig.take(orig.len() as int) =~= orig);
    out
}

} // verus!
