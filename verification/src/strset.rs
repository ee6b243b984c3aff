//! Sorted sets of strings, ordered as `String`'s `Ord` orders them (character by
//! character, a proper prefix first).

use vstd::prelude::*;
use crate::text::vec_eq;

verus! {

/// `a < b` for strings: the first differing character decides, and a proper prefix
/// comes first.
pub open spec fn lex_lt(a: Seq<char>, b: Seq<char>) -> bool
    decreases a.len(),
{
    if a.len() == 0 {
        b.len() > 0
    } else if b.len() == 0 {
        false
    } else if a[0] != b[0] {
        a[0] < b[0]
    } else {
        lex_lt(a.drop_first(), b.drop_first())
    }
}

/// No string is below itself.
pub proof fn lemma_lex_irrefl(a: Seq<char>)
    ensures
        !lex_lt(a, a),
    decreases a.len(),
{
    if a.len() > 0 {
        lemma_lex_irrefl(a.drop_first());
    }
}

/// The order is transitive.
pub proof fn lemma_lex_trans(a: Seq<char>, b: Seq<char>, c: Seq<char>)
    requires
        lex_lt(a, b),
        lex_lt(b, c),
    ensures
        lex_lt(a, c),
    decreases a.len(),
{
    if a.len() > 0 && b.len() > 0 && c.len() > 0 && a[0] == b[0] && b[0] == c[0] {
        lemma_lex_trans(a.drop_first(), b.drop_first(), c.drop_first());
    }
}

/// Two different strings are ordered one way or the other.
pub proof fn lemma_lex_total(a: Seq<char>, b: Seq<char>)
    ensures
        a == b || lex_lt(a, b) || lex_lt(b, a),
    decreases a.len(),
{
    if a.len() > 0 && b.len() > 0 && a[0] == b[0] {
        lemma_lex_total(a.drop_first(), b.drop_first());
        if a.drop_first() == b.drop_first() {
            assert(a =~= seq![a[0]] + a.drop_first());
            assert(b =~= seq![b[0]] + b.drop_first());
        }
    } else if a.len() == 0 && b.len() == 0 {
        assert(a =~= b);
    } else if a.len() > 0 && b.len() > 0 {
        assert(a[0] < b[0] || b[0] < a[0]);
    }
}

/// The order is asymmetric.
pub proof fn lemma_lex_asym(a: Seq<char>, b: Seq<char>)
    ensures
        !(lex_lt(a, b) && lex_lt(b, a)),
{
    if lex_lt(a, b) && lex_lt(b, a) {
        lemma_lex_trans(a, b, a);
        lemma_lex_irrefl(a);
    }
}

/// Each string is below every later one.
pub open spec fn strictly_sorted(s: Seq<Seq<char>>) -> bool {
    forall|i: int, j: int| 0 <= i < j < s.len() ==> lex_lt(#[trigger] s[i], #[trigger] s[j])
}

/// The strings of a finite set in increasing order, each once.
pub open spec fn sorted_strs(set: Set<Seq<char>>) -> Seq<Seq<char>> {
    choose|s: Seq<Seq<char>>| strictly_sorted(s) && s.to_set() == set
}

/// A strictly sorted sequence is determined by its set of elements.
pub proof fn lemma_sorted_unique(a: Seq<Seq<char>>, b: Seq<Seq<char>>)
    requires
        strictly_sorted(a),
        strictly_sorted(b),
        a.to_set() == b.to_set(),
    ensures
        a == b,
    decreases a.len(),
{
    if a.len() == 0 {
        if b.len() > 0 {
            assert(b.to_set().contains(b[0]));
        }
        assert(a =~= b);
    } else if b.len() == 0 {
        assert(a.to_set().contains(a[0]));
    } else {
        assert(a.to_set().contains(b[0]));
        assert(b.to_set().contains(a[0]));
        let i = choose|i: int| 0 <= i < a.len() && a[i] == b[0];
        let j = choose|j: int| 0 <= j < b.len() && b[j] == a[0];
        if a[0] != b[0] {
            assert(i > 0 && j > 0);
            assert(lex_lt(a[0], a[i]));
            assert(lex_lt(b[0], b[j]));
            lemma_lex_asym(a[0], b[0]);
        }
        let ta = a.drop_first();
        let tb = b.drop_first();
        assert forall|x: Seq<char>| ta.to_set().contains(x) implies tb.to_set().contains(x) by {
            let k = choose|k: int| 0 <= k < ta.len() && ta[k] == x;
            assert(a[k + 1] == x);
            assert(lex_lt(a[0], x));
            assert(b.to_set().contains(x));
            let l = choose|l: int| 0 <= l < b.len() && b[l] == x;
            if l == 0 {
                lemma_lex_irrefl(x);
            }
            assert(tb[l - 1] == x);
        }
        assert forall|x: Seq<char>| tb.to_set().contains(x) implies ta.to_set().contains(x) by {
            let k = choose|k: int| 0 <= k < tb.len() && tb[k] == x;
            assert(b[k + 1] == x);
            assert(lex_lt(b[0], x));
            assert(a.to_set().contains(x));
            let l = choose|l: int| 0 <= l < a.len() && a[l] == x;
            if l == 0 {
                lemma_lex_irrefl(x);
            }
            assert(ta[l - 1] == x);
        }
        assert(ta.to_set() =~= tb.to_set());
        lemma_sorted_unique(ta, tb);
        assert(a =~= seq![a[0]] + ta);
        assert(b =~= seq![b[0]] + tb);
    }
}

/// A strictly sorted sequence is the sorted form of its set.
pub proof fn lemma_is_sorted_strs(s: Seq<Seq<char>>)
    requires
        strictly_sorted(s),
    ensures
        sorted_strs(s.to_set()) == s,
{
    let t = sorted_strs(s.to_set());
    assert(strictly_sorted(s) && s.to_set() == s.to_set());
    lemma_sorted_unique(t, s);
}

/// `a < b` for strings.
pub fn lex_lt_exec(a: &Vec<char>, b: &Vec<char>) -> (r: bool)
    ensures
        r == lex_lt(a@, b@),
{
    let mut i: usize = 0;
    assert(a@.skip(0) =~= a@);
    assert(b@.skip(0) =~= b@);
    while i < a.len() && i < b.len() && a[i] == b[i]
        invariant
            i <= a.len(),
            i <= b.len(),
            lex_lt(a@, b@) == lex_lt(a@.skip(i as int), b@.skip(i as int)),
        decreases a.len() - i,
    {
        assert(a@.skip(i as int).drop_first() =~= a@.skip(i + 1));
        assert(b@.skip(i as int).drop_first() =~= b@.skip(i + 1));
        i += 1;
    }
    if i == a.len() {
        i < b.len()
    } else if i == b.len() {
        false
    } else {
        a[i] < b[i]
    }
}

/// The contents of each vector in a sequence of character vectors.
pub open spec fn views(v: Seq<Vec<char>>) -> Seq<Seq<char>> {
    v.map_values(|x: Vec<char>| x@)
}

/// Adds `x` to a strictly sorted vector of strings, keeping it strictly sorted.
pub fn insert_sorted(v: &mut Vec<Vec<char>>, x: Vec<char>)
    requires
        strictly_sorted(views(old(v)@)),
    ensures
        strictly_sorted(views(final(v)@)),
        views(final(v)@).to_set() == views(old(v)@).to_set().insert(x@),
{
    let ghost old_v = views(v@);
    let mut p: usize = 0;
    while p < v.len() && lex_lt_exec(&v[p], &x)
        invariant
            p <= v.len(),
            old_v == views(v@),
            forall|i: int| 0 <= i < p ==> lex_lt(#[trigger] old_v[i], x@),
        decreases v.len() - p,
    {
        p += 1;
    }
    if p < v.len() && vec_eq(&v[p], &x) {
        assert(old_v.to_set().contains(x@)) by {
            assert(old_v[p as int] == x@);
        }
        assert(old_v.to_set().insert(x@) =~= old_v.to_set());
        return;
    }
    proof {
        if p < old_v.len() {
            lemma_lex_total(old_v[p as int], x@);
        }
    }
    v.insert(p, x);
    let ghost nv = views(v@);
    assert(nv =~= old_v.insert(p as int, x@));
    assert forall|i: int, j: int| 0 <= i < j < nv.len() implies lex_lt(#[trigger] nv[i], #[trigger] nv[j]) by {
        if j < p {
        } else if i < p && j == p {
        } else if i < p && j > p {
            assert(nv[j] == old_v[j - 1]);
            if p < old_v.len() {
                assert(lex_lt(x@, old_v[p as int]));
                if j - 1 > p {
                    assert(lex_lt(old_v[p as int], old_v[j - 1]));
                    lemma_lex_trans(x@, old_v[p as int], old_v[j - 1]);
                }
                lemma_lex_trans(old_v[i], x@, old_v[j - 1]);
            }
        } else if i == p {
            assert(nv[j] == old_v[j - 1]);
            assert(lex_lt(x@, old_v[p as int]));
            if j - 1 > p {
                assert(lex_lt(old_v[p as int], old_v[j - 1]));
                lemma_lex_trans(x@, old_v[p as int], old_v[j - 1]);
            }
        } else {
            assert(nv[i] == old_v[i - 1]);
            assert(nv[j] == old_v[j - 1]);
        }
    }
    assert forall|y: Seq<char>| #[trigger] nv.to_set().contains(y) == old_v.to_set().insert(x@).contains(y) by {
        if nv.to_set().contains(y) {
            let k = choose|k: int| 0 <= k < nv.len() && nv[k] == y;
            if k < p {
                assert(old_v[k] == y);
            } else if k > p {
                assert(old_v[k - 1] == y);
            }
        }
        if old_v.to_set().contains(y) {
            let k = choose|k: int| 0 <= k < old_v.len() && old_v[k] == y;
            if k < p {
                assert(nv[k] == y);
            } else {
                assert(nv[k + 1] == y);
            }
        }
        if y == x@ {
            assert(nv[p as int] == y);
        }
    }
    assert(nv.to_set() =~= old_v.to_set().insert(x@));
}

} // verus!

verus! {

/// `x` put into a sorted sequence of strings at its place (nothing changes when it is
/// already there).
pub open spec fn insert_sorted_spec(ss: Seq<Seq<char>>, x: Seq<char>) -> Seq<Seq<char>>
    decreases ss.len(),
{
    if ss.len() == 0 {
        seq![x]
    } else if ss[0] == x {
        ss
    } else if lex_lt(x, ss[0]) {
        seq![x] + ss
    } else {
        seq![ss[0]] + insert_sorted_spec(ss.drop_first(), x)
    }
}

/// Inserting keeps the sequence strictly sorted and adds `x` to its elements.
pub proof fn lemma_insert_sorted_spec(ss: Seq<Seq<char>>, x: Seq<char>)
    requires
        strictly_sorted(ss),
    ensures
        strictly_sorted(insert_sorted_spec(ss, x)),
        insert_sorted_spec(ss, x).to_set() == ss.to_set().insert(x),
        forall|i: int|
            0 <= i < insert_sorted_spec(ss, x).len() ==> #[trigger] insert_sorted_spec(ss, x)[i] == x
                || ss.contains(insert_sorted_spec(ss, x)[i]),
    decreases ss.len(),
{
    let r = insert_sorted_spec(ss, x);
    if ss.len() == 0 {
        assert(r.to_set() =~= ss.to_set().insert(x)) by {
            assert(r[0] == x);
        }
    } else if ss[0] == x {
        assert(ss.to_set().contains(x));
        assert(ss.to_set().insert(x) =~= ss.to_set());
    } else if lex_lt(x, ss[0]) {
        assert forall|i: int, j: int| 0 <= i < j < r.len() implies lex_lt(#[trigger] r[i], #[trigger] r[j]) by {
            if i == 0 {
                if j > 1 {
                    assert(lex_lt(ss[0], ss[j - 1]));
                    lemma_lex_trans(x, ss[0], ss[j - 1]);
                }
            } else {
                assert(r[i] == ss[i - 1] && r[j] == ss[j - 1]);
            }
        }
        assert(r.to_set() =~= ss.to_set().insert(x)) by {
            assert forall|y: Seq<char>| r.to_set().contains(y) <==> ss.to_set().insert(x).contains(y) by {
                if r.to_set().contains(y) {
                    let k = choose|k: int| 0 <= k < r.len() && r[k] == y;
                    if k > 0 {
                        assert(ss[k - 1] == y);
                    }
                }
                if ss.to_set().contains(y) {
                    let k = choose|k: int| 0 <= k < ss.len() && ss[k] == y;
                    assert(r[k + 1] == y);
                }
                if y == x {
                    assert(r[0] == y);
                }
            }
        }
        assert forall|i: int| 0 <= i < r.len() implies #[trigger] r[i] == x || ss.contains(r[i]) by {
            if i > 0 {
                assert(r[i] == ss[i - 1]);
            }
        }
    } else {
        let tail = ss.drop_first();
        assert(strictly_sorted(tail)) by {
            assert forall|i: int, j: int| 0 <= i < j < tail.len() implies lex_lt(#[trigger] tail[i], #[trigger] tail[j]) by {
                assert(tail[i] == ss[i + 1] && tail[j] == ss[j + 1]);
            }
        }
        lemma_insert_sorted_spec(tail, x);
        let rt = insert_sorted_spec(tail, x);
        lemma_lex_total(ss[0], x);
        assert(lex_lt(ss[0], x));
        assert(r == seq![ss[0]] + rt);
        assert forall|i: int, j: int| 0 <= i < j < r.len() implies lex_lt(#[trigger] r[i], #[trigger] r[j]) by {
            if i == 0 {
                assert(r[j] == rt[j - 1]);
                if rt[j - 1] != x {
                    assert(tail.contains(rt[j - 1]));
                    let k = choose|k: int| 0 <= k < tail.len() && tail[k] == rt[j - 1];
                    assert(ss[k + 1] == tail[k]);
                }
            } else {
                assert(r[i] == rt[i - 1] && r[j] == rt[j - 1]);
            }
        }
        assert(r.to_set() =~= ss.to_set().insert(x)) by {
            assert forall|y: Seq<char>| r.to_set().contains(y) <==> ss.to_set().insert(x).contains(y) by {
                if r.to_set().contains(y) {
                    let k = choose|k: int| 0 <= k < r.len() && r[k] == y;
                    if k > 0 {
                        assert(rt[k - 1] == y);
                        assert(rt.to_set().contains(y));
                        if y != x {
                            assert(tail.to_set().contains(y));
                            let m = choose|m: int| 0 <= m < tail.len() && tail[m] == y;
                            assert(ss[m + 1] == y);
                        }
                    }
                }
                if ss.to_set().contains(y) {
                    let k = choose|k: int| 0 <= k < ss.len() && ss[k] == y;
                    if k == 0 {
                        assert(r[0] == y);
                    } else {
                        assert(tail[k - 1] == y);
                        assert(tail.to_set().contains(y));
                        assert(rt.to_set().contains(y));
                        let m = choose|m: int| 0 <= m < rt.len() && rt[m] == y;
                        assert(r[m + 1] == y);
                    }
                }
                if y == x {
                    assert(rt.to_set().contains(x));
                    let m = choose|m: int| 0 <= m < rt.len() && rt[m] == x;
                    assert(r[m + 1] == x);
                }
            }
        }
        assert forall|i: int| 0 <= i < r.len() implies #[trigger] r[i] == x || ss.contains(r[i]) by {
            if i > 0 {
                assert(r[i] == rt[i - 1]);
                if rt[i - 1] != x {
                    let k = choose|k: int| 0 <= k < tail.len() && tail[k] == rt[i - 1];
                    assert(ss[k + 1] == tail[k]);
                }
            } else {
                assert(ss[0] == r[0]);
            }
        }
    }
}

/// The elements of any sequence of strings can be listed strictly sorted, and
/// `sorted_strs` does so.
pub proof fn lemma_sorted_strs_of_seq(xs: Seq<Seq<char>>)
    ensures
        strictly_sorted(sorted_strs(xs.to_set())),
        sorted_strs(xs.to_set()).to_set() == xs.to_set(),
    decreases xs.len(),
{
    if xs.len() == 0 {
        let e = Seq::<Seq<char>>::empty();
        assert(e.to_set() =~= xs.to_set());
        assert(strictly_sorted(e));
    } else {
        let init = xs.drop_last();
        lemma_sorted_strs_of_seq(init);
        let ss = sorted_strs(init.to_set());
        lemma_insert_sorted_spec(ss, xs.last());
        assert(xs =~= init.push(xs.last()));
        init.lemma_push_to_set_commute(xs.last());
        let w = insert_sorted_spec(ss, xs.last());
        assert(strictly_sorted(w) && w.to_set() == xs.to_set());
    }
}

} // verus!
