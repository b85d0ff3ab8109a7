//! Strings in code-point order, and sorted lists of distinct strings (what
//! a `BTreeSet<String>` holds, in the order it yields them). vstd specifies
//! `BTreeSet` only for keys whose ordering it knows to obey its laws, and it
//! knows none for `String`; so a `Vec` kept strictly sorted stands in for the
//! set, and its order is proved here.

use vstd::prelude::*;
use crate::text::strings_view;

verus! {

/// `a` sorts before `b`: code-point lexicographic order, as `str` orders.
pub open spec fn seq_less(a: Seq<char>, b: Seq<char>) -> bool
    decreases a.len(),
{
    if b.len() == 0 {
        false
    } else if a.len() == 0 {
        true
    } else if a[0] < b[0] {
        true
    } else if a[0] > b[0] {
        false
    } else {
        seq_less(a.drop_first(), b.drop_first())
    }
}

/// Nothing sorts before itself.
pub proof fn lemma_less_irreflexive(a: Seq<char>)
    ensures
        !seq_less(a, a),
    decreases a.len(),
{
    if a.len() > 0 {
        lemma_less_irreflexive(a.drop_first());
    }
}

/// Two different strings are ordered one way or the other, and not both.
pub proof fn lemma_less_total(a: Seq<char>, b: Seq<char>)
    ensures
        a != b ==> (seq_less(a, b) || seq_less(b, a)),
        !(seq_less(a, b) && seq_less(b, a)),
    decreases a.len(),
{
    if a.len() > 0 && b.len() > 0 && a[0] == b[0] {
        lemma_less_total(a.drop_first(), b.drop_first());
        if a != b {
            assert(a =~= seq![a[0]] + a.drop_first());
            assert(b =~= seq![b[0]] + b.drop_first());
        }
    } else if a.len() > 0 && b.len() > 0 {
        assert(a[0] != b[0]);
    } else if a.len() == 0 && b.len() == 0 {
        assert(a =~= b);
    }
}

/// The order is transitive.
pub proof fn lemma_less_transitive(a: Seq<char>, b: Seq<char>, c: Seq<char>)
    requires
        seq_less(a, b),
        seq_less(b, c),
    ensures
        seq_less(a, c),
    decreases a.len(),
{
    if a.len() > 0 && b.len() > 0 && c.len() > 0 {
        if a[0] == b[0] && b[0] == c[0] {
            lemma_less_transitive(a.drop_first(), b.drop_first(), c.drop_first());
        }
    }
}

/// Exec comparison of two strings in code-point order.
pub fn str_less(a: &[char], b: &[char]) -> (r: bool)
    ensures
        r == seq_less(a@, b@),
{
    let mut i: usize = 0;
    assert(a@.subrange(0, a@.len() as int) =~= a@);
    assert(b@.subrange(0, b@.len() as int) =~= b@);
    while i < a.len() && i < b.len() && a[i] == b[i]
        invariant
            i <= a@.len(),
            i <= b@.len(),
            seq_less(a@, b@) == seq_less(
                a@.subrange(i as int, a@.len() as int),
                b@.subrange(i as int, b@.len() as int),
            ),
        decreases a@.len() - i,
    {
        proof {
            let sa = a@.subrange(i as int, a@.len() as int);
            let sb = b@.subrange(i as int, b@.len() as int);
            assert(sa.drop_first() =~= a@.subrange(i + 1, a@.len() as int));
            assert(sb.drop_first() =~= b@.subrange(i + 1, b@.len() as int));
        }
        i = i + 1;
    }
    proof {
        let sa = a@.subrange(i as int, a@.len() as int);
        let sb = b@.subrange(i as int, b@.len() as int);
        if i < a@.len() && i < b@.len() {
            assert(sa[0] == a@[i as int]);
            assert(sb[0] == b@[i as int]);
        }
    }
    if i >= b.len() {
        false
    } else if i >= a.len() {
        true
    } else {
        a[i] < b[i]
    }
}

/// Strictly ascending: sorted and without repeats.
pub open spec fn strictly_sorted(s: Seq<Seq<char>>) -> bool {
    forall|i: int, j: int| 0 <= i < j < s.len() ==> seq_less(#[trigger] s[i], #[trigger] s[j])
}

/// Two strictly ascending lists with the same members are equal.
pub proof fn lemma_sorted_unique(a: Seq<Seq<char>>, b: Seq<Seq<char>>)
    requires
        strictly_sorted(a),
        strictly_sorted(b),
        forall|x: Seq<char>| a.contains(x) <==> b.contains(x),
    ensures
        a == b,
    decreases a.len(),
{
    if a.len() == 0 {
        if b.len() > 0 {
            assert(b.contains(b[0]));
        }
        assert(a =~= b);
    } else if b.len() == 0 {
        assert(a.contains(a[0]));
    } else {
        assert(a.contains(a[0]));
        assert(b.contains(b[0]));
        if a[0] != b[0] {
            let j = choose|j: int| 0 <= j < b.len() && b[j] == a[0];
            let k = choose|k: int| 0 <= k < a.len() && a[k] == b[0];
            assert(j != 0);
            assert(k != 0);
            assert(seq_less(b[0], b[j]));
            assert(seq_less(a[0], a[k]));
            lemma_less_total(a[0], b[0]);
        }
        let ta = a.drop_first();
        let tb = b.drop_first();
        assert forall|x: Seq<char>| ta.contains(x) <==> tb.contains(x) by {
            if ta.contains(x) {
                let i = choose|i: int| 0 <= i < ta.len() && ta[i] == x;
                assert(a[i + 1] == x);
                assert(seq_less(a[0], x));
                lemma_less_irreflexive(x);
                assert(b.contains(x));
                let j = choose|j: int| 0 <= j < b.len() && b[j] == x;
                assert(j != 0);
                assert(tb[j - 1] == x);
            }
            if tb.contains(x) {
                let i = choose|i: int| 0 <= i < tb.len() && tb[i] == x;
                assert(b[i + 1] == x);
                assert(seq_less(b[0], x));
                lemma_less_irreflexive(x);
                assert(a.contains(x));
                let j = choose|j: int| 0 <= j < a.len() && a[j] == x;
                assert(j != 0);
                assert(ta[j - 1] == x);
            }
        }
        lemma_sorted_unique(ta, tb);
        assert(a =~= seq![a[0]] + ta);
        assert(b =~= seq![b[0]] + tb);
    }
}

/// `x` inserted into an ascending list before the first member it sorts
/// before.
pub open spec fn insert_sorted(l: Seq<Seq<char>>, x: Seq<char>) -> Seq<Seq<char>>
    decreases l.len(),
{
    if l.len() == 0 {
        seq![x]
    } else if seq_less(x, l[0]) {
        seq![x] + l
    } else {
        seq![l[0]] + insert_sorted(l.drop_first(), x)
    }
}

proof fn lemma_insert_sorted(l: Seq<Seq<char>>, x: Seq<char>)
    requires
        strictly_sorted(l),
        !l.contains(x),
    ensures
        strictly_sorted(insert_sorted(l, x)),
        forall|y: Seq<char>| insert_sorted(l, x).contains(y) <==> (l.contains(y) || y == x),
    decreases l.len(),
{
    let r = insert_sorted(l, x);
    if l.len() == 0 {
        assert(r[0] == x);
    } else if seq_less(x, l[0]) {
        assert forall|i: int, j: int| 0 <= i < j < r.len() implies seq_less(#[trigger] r[i], #[trigger] r[j]) by {
            if i == 0 {
                if j > 1 {
                    lemma_less_transitive(x, l[0], l[j - 1]);
                }
            } else {
                assert(r[i] == l[i - 1] && r[j] == l[j - 1]);
            }
        }
        assert forall|y: Seq<char>| r.contains(y) <==> (l.contains(y) || y == x) by {
            if r.contains(y) {
                let m = choose|m: int| 0 <= m < r.len() && r[m] == y;
                if m > 0 {
                    assert(l[m - 1] == y);
                }
            }
            if l.contains(y) {
                let m = choose|m: int| 0 <= m < l.len() && l[m] == y;
                assert(r[m + 1] == y);
            }
            if y == x {
                assert(r[0] == y);
            }
        }
    } else {
        let t = l.drop_first();
        assert(l[0] != x);
        lemma_less_total(x, l[0]);
        assert(strictly_sorted(t)) by {
            assert forall|i: int, j: int| 0 <= i < j < t.len() implies seq_less(#[trigger] t[i], #[trigger] t[j]) by {
                assert(t[i] == l[i + 1] && t[j] == l[j + 1]);
            }
        }
        assert(!t.contains(x)) by {
            if t.contains(x) {
                let m = choose|m: int| 0 <= m < t.len() && t[m] == x;
                assert(l[m + 1] == x);
            }
        }
        lemma_insert_sorted(t, x);
        let rt = insert_sorted(t, x);
        assert(r == seq![l[0]] + rt);
        assert forall|i: int, j: int| 0 <= i < j < r.len() implies seq_less(#[trigger] r[i], #[trigger] r[j]) by {
            if i == 0 {
                assert(r[j] == rt[j - 1]);
                assert(rt.contains(rt[j - 1]));
                if rt[j - 1] != x {
                    assert(t.contains(rt[j - 1]));
                    let m = choose|m: int| 0 <= m < t.len() && t[m] == rt[j - 1];
                    assert(l[m + 1] == rt[j - 1]);
                }
            } else {
                assert(r[i] == rt[i - 1] && r[j] == rt[j - 1]);
            }
        }
        assert forall|y: Seq<char>| r.contains(y) <==> (l.contains(y) || y == x) by {
            if r.contains(y) {
                let m = choose|m: int| 0 <= m < r.len() && r[m] == y;
                if m > 0 {
                    assert(rt[m - 1] == y);
                    assert(rt.contains(y));
                    if y != x {
                        assert(t.contains(y));
                        let q = choose|q: int| 0 <= q < t.len() && t[q] == y;
                        assert(l[q + 1] == y);
                    }
                } else {
                    assert(l[0] == y);
                }
            }
            if l.contains(y) {
                let m = choose|m: int| 0 <= m < l.len() && l[m] == y;
                if m == 0 {
                    assert(r[0] == y);
                } else {
                    assert(t[m - 1] == y);
                    assert(t.contains(y));
                    assert(rt.contains(y));
                    let q = choose|q: int| 0 <= q < rt.len() && rt[q] == y;
                    assert(r[q + 1] == y);
                }
            }
            if y == x {
                assert(rt.contains(y));
                let q = choose|q: int| 0 <= q < rt.len() && rt[q] == y;
                assert(r[q + 1] == y);
            }
        }
    }
}

/// Every finite collection of strings has a strictly ascending listing.
pub proof fn lemma_sorted_exists(s: Seq<Seq<char>>)
    ensures
        exists|l: Seq<Seq<char>>| strictly_sorted(l) && forall|y: Seq<char>| l.contains(y) <==> s.contains(y),
    decreases s.len(),
{
    if s.len() == 0 {
        let l = Seq::<Seq<char>>::empty();
        assert(strictly_sorted(l) && forall|y: Seq<char>| l.contains(y) <==> s.contains(y));
    } else {
        let t = s.drop_last();
        let x = s.last();
        lemma_sorted_exists(t);
        let l0 = choose|l: Seq<Seq<char>>| strictly_sorted(l) && forall|y: Seq<char>| l.contains(y) <==> t.contains(y);
        assert forall|y: Seq<char>| s.contains(y) <==> (t.contains(y) || y == x) by {
            if s.contains(y) {
                let m = choose|m: int| 0 <= m < s.len() && s[m] == y;
                if m < t.len() {
                    assert(t[m] == y);
                }
            }
            if t.contains(y) {
                let m = choose|m: int| 0 <= m < t.len() && t[m] == y;
                assert(s[m] == y);
            }
            if y == x {
                assert(s[s.len() - 1] == y);
            }
        }
        if l0.contains(x) {
            assert(strictly_sorted(l0) && forall|y: Seq<char>| l0.contains(y) <==> s.contains(y));
        } else {
            lemma_insert_sorted(l0, x);
            let l1 = insert_sorted(l0, x);
            assert(strictly_sorted(l1) && forall|y: Seq<char>| l1.contains(y) <==> s.contains(y));
        }
    }
}

fn less_at(v: &Vec<String>, p: usize, x: &Vec<char>) -> (r: bool)
    requires
        p < v@.len(),
    ensures
        r == seq_less(v@[p as int]@, x@),
{
    let vc = crate::text::chars_of(v[p].as_str());
    str_less(&vc, x)
}

/// Insert `x` into a strictly ascending list of strings, keeping it so.
pub fn sorted_insert(v: &mut Vec<String>, x: String)
    requires
        strictly_sorted(strings_view(old(v)@)),
    ensures
        strictly_sorted(strings_view(final(v)@)),
        forall|y: Seq<char>|
            strings_view(final(v)@).contains(y) <==> (strings_view(old(v)@).contains(y) || y == x@),
{
    let ghost sv = strings_view(v@);
    let xc = crate::text::chars_of(x.as_str());
    let mut p: usize = 0;
    while p < v.len() && less_at(v, p, &xc)
        invariant
            p <= v@.len(),
            sv == strings_view(v@),
            xc@ == x@,
            strictly_sorted(sv),
            forall|k: int| 0 <= k < p ==> seq_less(#[trigger] sv[k], x@),
        decreases v@.len() - p,
    {
        p = p + 1;
    }
    if p < v.len() {
        let vc = crate::text::chars_of(v[p].as_str());
        if crate::text::seq_eq(&vc, &xc) {
            proof {
                assert forall|y: Seq<char>|
                    sv.contains(y) <==> (sv.contains(y) || y == x@) by {
                    if y == x@ {
                        assert(sv[p as int] == y);
                    }
                }
            }
            return;
        }
        proof {
            lemma_less_total(sv[p as int], x@);
        }
    }
    let ghost before = v@;
    v.insert(p, x);
    proof {
        let nv = strings_view(v@);
        assert(nv =~= sv.insert(p as int, x@));
        assert forall|i: int, j: int| 0 <= i < j < nv.len() implies seq_less(
            #[trigger] nv[i],
            #[trigger] nv[j],
        ) by {
            if i < p && j == p {
            } else if i < p && j > p {
                assert(nv[j] == sv[j - 1]);
                if (p as int) < j - 1 {
                    assert(seq_less(sv[p as int], sv[j - 1]));
                    lemma_less_transitive(x@, sv[p as int], sv[j - 1]);
                }
                lemma_less_transitive(sv[i], x@, sv[j - 1]);
            } else if i == p && j > p {
                assert(nv[j] == sv[j - 1]);
                if (p as int) < j - 1 {
                    assert(seq_less(sv[p as int], sv[j - 1]));
                    lemma_less_transitive(x@, sv[p as int], sv[j - 1]);
                }
            } else if i > p {
                assert(nv[i] == sv[i - 1]);
                assert(nv[j] == sv[j - 1]);
            } else {
                assert(nv[i] == sv[i]);
                assert(nv[j] == sv[j]);
            }
        }
        assert forall|y: Seq<char>| nv.contains(y) <==> (sv.contains(y) || y == x@) by {
            if nv.contains(y) {
                let k = choose|k: int| 0 <= k < nv.len() && nv[k] == y;
                if k < p {
                    assert(sv[k] == y);
                } else if k > p {
                    assert(sv[k - 1] == y);
                }
            }
            if sv.contains(y) {
                let k = choose|k: int| 0 <= k < sv.len() && sv[k] == y;
                if k < p {
                    assert(nv[k] == y);
                } else {
                    assert(nv[k + 1] == y);
                }
            }
            if y == x@ {
                assert(nv[p as int] == y);
            }
        }
    }
}

} // verus!
