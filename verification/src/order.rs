//! Ordering of strings and the sorted, duplicate-free list of a collection
//! of strings (`Vec::sort` followed by `Vec::dedup`).
//!
//! Rust orders `String`s by their UTF-8 bytes, which is the same as
//! ordering them character by character by code point; `lex_lt` is that
//! order on character sequences.
use vstd::prelude::*;

verus! {

/// `a` comes strictly before `b` in lexicographic order of code points.
pub open spec fn lex_lt(a: Seq<char>, b: Seq<char>) -> bool
    decreases a.len(),
{
    if a.len() == 0 {
        b.len() > 0
    } else if b.len() == 0 {
        false
    } else if a[0] != b[0] {
        a[0] < b[0]
    } else {
        lex_lt(a.drop_first(), b.drop_first())
    }
}

/// No sequence comes before itself.
pub proof fn lemma_lex_irreflexive(a: Seq<char>)
    ensures
        !lex_lt(a, a),
    decreases a.len(),
{
    if a.len() > 0 {
        lemma_lex_irreflexive(a.drop_first());
    }
}

/// The order is transitive.
pub proof fn lemma_lex_transitive(a: Seq<char>, b: Seq<char>, c: Seq<char>)
    requires
        lex_lt(a, b),
        lex_lt(b, c),
    ensures
        lex_lt(a, c),
    decreases a.len(),
{
    if a.len() > 0 && b.len() > 0 && c.len() > 0 {
        if a[0] == b[0] && b[0] == c[0] {
            lemma_lex_transitive(a.drop_first(), b.drop_first(), c.drop_first());
        }
    }
}

/// Two different sequences are ordered one way or the other.
pub proof fn lemma_lex_total(a: Seq<char>, b: Seq<char>)
    requires
        a != b,
    ensures
        lex_lt(a, b) || lex_lt(b, a),
    decreases a.len(),
{
    if a.len() > 0 && b.len() > 0 {
        if a[0] == b[0] {
            if a.drop_first() == b.drop_first() {
                assert(a =~= seq![a[0]] + a.drop_first());
                assert(b =~= seq![b[0]] + b.drop_first());
            }
            lemma_lex_total(a.drop_first(), b.drop_first());
        }
    } else if a.len() == 0 && b.len() == 0 {
        assert(a =~= b);
    }
}

/// The order is asymmetric.
pub proof fn lemma_lex_asymmetric(a: Seq<char>, b: Seq<char>)
    requires
        lex_lt(a, b),
    ensures
        !lex_lt(b, a),
{
    if lex_lt(b, a) {
        lemma_lex_transitive(a, b, a);
        lemma_lex_irreflexive(a);
    }
}

/// Whether `a` comes strictly before `b`.
pub fn lex_less(a: &Vec<char>, b: &Vec<char>) -> (r: bool)
    ensures
        r == lex_lt(a@, b@),
{
    let mut i: usize = 0;
    assert(a@.skip(0) =~= a@);
    assert(b@.skip(0) =~= b@);
    while i < a.len() && i < b.len() && a[i] == b[i]
        invariant
            i <= a@.len(),
            i <= b@.len(),
            lex_lt(a@, b@) == lex_lt(a@.skip(i as int), b@.skip(i as int)),
        decreases a@.len() - i,
    {
        assert(a@.skip(i as int).drop_first() =~= a@.skip(i + 1));
        assert(b@.skip(i as int).drop_first() =~= b@.skip(i + 1));
        i = i + 1;
    }
    if i == a.len() {
        i < b.len()
    } else if i == b.len() {
        false
    } else {
        a[i] < b[i]
    }
}

/// Every element of `s` comes strictly before every later one.
pub open spec fn strictly_sorted(s: Seq<Seq<char>>) -> bool {
    forall|i: int, j: int| 0 <= i < j < s.len() ==> lex_lt(#[trigger] s[i], #[trigger] s[j])
}

/// `s` lists the distinct elements of `items` in increasing order.
pub open spec fn sorted_set_of(s: Seq<Seq<char>>, items: Seq<Seq<char>>) -> bool {
    &&& strictly_sorted(s)
    &&& forall|x: Seq<char>| s.contains(x) <==> items.contains(x)
}

/// The distinct elements of `items` in increasing order (what sorting and
/// then removing consecutive duplicates gives).
pub open spec fn sorted_unique(items: Seq<Seq<char>>) -> Seq<Seq<char>> {
    choose|s: Seq<Seq<char>>| sorted_set_of(s, items)
}

/// Two increasing lists with the same elements are equal.
pub proof fn lemma_sorted_set_unique(s1: Seq<Seq<char>>, s2: Seq<Seq<char>>)
    requires
        strictly_sorted(s1),
        strictly_sorted(s2),
        forall|x: Seq<char>| s1.contains(x) <==> s2.contains(x),
    ensures
        s1 == s2,
    decreases s1.len() + s2.len(),
{
    if s1.len() == 0 {
        if s2.len() > 0 {
            assert(s2.contains(s2[0]));
        }
        assert(s1 =~= s2);
    } else if s2.len() == 0 {
        assert(s1.contains(s1[0]));
    } else {
        // the first elements are the least ones, so they agree
        assert(s1.contains(s1[0]));
        let k = choose|k: int| 0 <= k < s2.len() && s2[k] == s1[0];
        assert(s2.contains(s2[0]));
        let j = choose|j: int| 0 <= j < s1.len() && s1[j] == s2[0];
        if k > 0 {
            assert(lex_lt(s2[0], s2[k]));
            if j > 0 {
                assert(lex_lt(s1[0], s1[j]));
                lemma_lex_asymmetric(s1[0], s1[j]);
            } else {
                lemma_lex_irreflexive(s1[0]);
            }
        }
        assert(s1[0] == s2[0]);
        let t1 = s1.drop_first();
        let t2 = s2.drop_first();
        assert forall|x: Seq<char>| t1.contains(x) implies t2.contains(x) by {
            let a = choose|a: int| 0 <= a < t1.len() && t1[a] == x;
            assert(s1[a + 1] == x);
            assert(s2.contains(x));
            let b = choose|b: int| 0 <= b < s2.len() && s2[b] == x;
            if b == 0 {
                assert(lex_lt(s1[0], s1[a + 1]));
                lemma_lex_irreflexive(x);
            }
            assert(t2[b - 1] == x);
        }
        assert forall|x: Seq<char>| t2.contains(x) implies t1.contains(x) by {
            let b = choose|b: int| 0 <= b < t2.len() && t2[b] == x;
            assert(s2[b + 1] == x);
            assert(s1.contains(x));
            let a = choose|a: int| 0 <= a < s1.len() && s1[a] == x;
            if a == 0 {
                assert(lex_lt(s2[0], s2[b + 1]));
                lemma_lex_irreflexive(x);
            }
            assert(t1[a - 1] == x);
        }
        assert forall|i: int, j: int| 0 <= i < j < t1.len() implies lex_lt(
            #[trigger] t1[i],
            #[trigger] t1[j],
        ) by {
            assert(t1[i] == s1[i + 1] && t1[j] == s1[j + 1]);
        }
        assert forall|i: int, j: int| 0 <= i < j < t2.len() implies lex_lt(
            #[trigger] t2[i],
            #[trigger] t2[j],
        ) by {
            assert(t2[i] == s2[i + 1] && t2[j] == s2[j + 1]);
        }
        lemma_sorted_set_unique(t1, t2);
        assert(s1 =~= seq![s1[0]] + t1);
        assert(s2 =~= seq![s2[0]] + t2);
    }
}

/// The distinct elements of `items`, sorted.
pub fn sort_dedup(items: &Vec<Vec<char>>) -> (r: Vec<Vec<char>>)
    ensures
        r@.len() == sorted_unique(items@.map_values(|v: Vec<char>| v@)).len(),
        forall|i: int|
            0 <= i < r@.len() ==> #[trigger] r@[i]@ == sorted_unique(
                items@.map_values(|v: Vec<char>| v@),
            )[i],
{
    let ghost all = items@.map_values(|v: Vec<char>| v@);
    let mut out: Vec<Vec<char>> = Vec::new();
    let mut k: usize = 0;
    while k < items.len()
        invariant
            k <= items@.len(),
            all == items@.map_values(|v: Vec<char>| v@),
            sorted_set_of(out@.map_values(|v: Vec<char>| v@), all.take(k as int)),
        decreases items@.len() - k,
    {
        let ghost before = out@.map_values(|v: Vec<char>| v@);
        let x = &items[k];
        // first position whose element does not come before `x`
        let mut p: usize = 0;
        while p < out.len() && lex_less(&out[p], x)
            invariant
                p <= out@.len(),
                before == out@.map_values(|v: Vec<char>| v@),
                forall|i: int| 0 <= i < p ==> lex_lt(#[trigger] before[i], x@),
            decreases out@.len() - p,
        {
            p = p + 1;
        }
        let dup = p < out.len() && crate::text::chars_eq(&out[p], x);
        if !dup {
            let copy = clone_chars(x);
            out.insert(p, copy);
            let ghost after = out@.map_values(|v: Vec<char>| v@);
            assert(after =~= before.insert(p as int, x@));
            assert forall|i: int, j: int| 0 <= i < j < after.len() implies lex_lt(
                #[trigger] after[i],
                #[trigger] after[j],
            ) by {
                if p < before.len() {
                    // the element now after `x` is not before it, and differs from it
                    assert(!lex_lt(before[p as int], x@));
                    assert(before[p as int] != x@);
                    lemma_lex_total(before[p as int], x@);
                }
                if i < p && j == p {
                } else if i < p && j > p {
                    assert(after[j] == before[j - 1]);
                    assert(after[i] == before[i]);
                } else if i == p && j > p {
                    assert(after[j] == before[j - 1]);
                    if j - 1 > p {
                        assert(lex_lt(before[p as int], before[j - 1]));
                        lemma_lex_transitive(x@, before[p as int], before[j - 1]);
                    }
                } else if i > p {
                    assert(after[i] == before[i - 1] && after[j] == before[j - 1]);
                } else {
                    assert(after[i] == before[i] && after[j] == before[j]);
                }
            }
            let ghost prev = all.take(k as int);
            let ghost next = all.take(k + 1);
            assert(next =~= prev.push(x@));
            assert forall|y: Seq<char>| after.contains(y) implies next.contains(y) by {
                let a = choose|a: int| 0 <= a < after.len() && after[a] == y;
                if a == p {
                    assert(next[k as int] == y);
                } else {
                    let b = if a < p { a } else { a - 1 };
                    assert(before[b] == y);
                    assert(before.contains(y));
                    assert(prev.contains(y));
                    let c = choose|c: int| 0 <= c < prev.len() && prev[c] == y;
                    assert(next[c] == y);
                }
            }
            assert forall|y: Seq<char>| next.contains(y) implies after.contains(y) by {
                let c = choose|c: int| 0 <= c < next.len() && next[c] == y;
                if c == k {
                    assert(after[p as int] == y);
                } else {
                    assert(prev[c] == y);
                    assert(prev.contains(y));
                    assert(before.contains(y));
                    let a = choose|a: int| 0 <= a < before.len() && before[a] == y;
                    if a < p {
                        assert(after[a] == y);
                    } else {
                        assert(after[a + 1] == y);
                    }
                }
            }
        } else {
            let ghost prev = all.take(k as int);
            let ghost next = all.take(k + 1);
            assert(next =~= prev.push(x@));
            assert(before[p as int] == x@);
            assert forall|y: Seq<char>| before.contains(y) implies next.contains(y) by {
                assert(prev.contains(y));
                let c = choose|c: int| 0 <= c < prev.len() && prev[c] == y;
                assert(next[c] == y);
            }
            assert forall|y: Seq<char>| next.contains(y) implies before.contains(y) by {
                let c = choose|c: int| 0 <= c < next.len() && next[c] == y;
                if c < k {
                    assert(prev[c] == y);
                    assert(prev.contains(y));
                }
            }
        }
        k = k + 1;
    }
    let ghost res = out@.map_values(|v: Vec<char>| v@);
    assert(all.take(items@.len() as int) =~= all);
    proof {
        let s = sorted_unique(all);
        assert(sorted_set_of(res, all));
        assert(sorted_set_of(s, all));
        lemma_sorted_set_unique(res, s);
    }
    out
}

/// A copy of a character vector.
pub fn clone_chars(v: &Vec<char>) -> (r: Vec<char>)
    ensures
        r@ == v@,
{
    let mut r: Vec<char> = Vec::new();
    crate::text::push_all(&mut r, v);
    r
}

} // verus!
