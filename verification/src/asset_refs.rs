//! The relative `assets/` references of a document body, rewritten in one left-to-right
//! pass: at each place where a reference starts, the whole reference (a run of `../`,
//! or `./`, followed by `assets/`) is replaced, and the scan goes on after it.

use vstd::prelude::*;
use crate::paths::ups;
use crate::text::{append_vec, chars_of, matches_at};

verus! {

/// `../`
pub open spec fn up_seq() -> Seq<char> {
    seq!['.', '.', '/']
}

/// `assets/`
pub open spec fn assets_seq() -> Seq<char> {
    seq!['a', 's', 's', 'e', 't', 's', '/']
}

/// `./assets/`
pub open spec fn dot_assets_seq() -> Seq<char> {
    seq!['.', '/'] + assets_seq()
}

/// A character that continues a path (`.` or `/`): no reference starts right after one.
pub open spec fn is_path_char(c: char) -> bool {
    c == '.' || c == '/'
}

/// The number of `../` that `s` starts with.
pub open spec fn lead_ups(s: Seq<char>) -> nat
    decreases s.len(),
{
    if s.len() >= 3 && s.take(3) == up_seq() {
        1 + lead_ups(s.skip(3))
    } else {
        0
    }
}

/// The length of the asset reference that `s` starts with: one or more `../` followed
/// by `assets/`, or `./assets/`; 0 when `s` starts with neither.
pub open spec fn asset_ref_len(s: Seq<char>) -> nat {
    let k = lead_ups(s);
    if k >= 1 && 3 * k + 7 <= s.len() && s.subrange(3 * k as int, 3 * k as int + 7) == assets_seq() {
        3 * k + 7
    } else if 9 <= s.len() && s.take(9) == dot_assets_seq() {
        9
    } else {
        0
    }
}

/// `s` with each asset reference replaced by `t`, scanning from the left; `ok` says
/// whether a reference may start at the first character (it may not right after `.`
/// or `/`, nor right after a replaced reference).
pub open spec fn fix_refs(s: Seq<char>, ok: bool, t: Seq<char>) -> Seq<char>
    decreases s.len(),
{
    if s.len() == 0 {
        seq![]
    } else if ok && asset_ref_len(s) > 0 {
        t + fix_refs(s.skip(asset_ref_len(s) as int), false, t)
    } else {
        seq![s[0]] + fix_refs(s.skip(1), !is_path_char(s[0]), t)
    }
}

/// Every asset reference that the scan of `fix_refs` meets in `s` already reads `t`.
pub open spec fn refs_read(s: Seq<char>, ok: bool, t: Seq<char>) -> bool
    decreases s.len(),
{
    if s.len() == 0 {
        true
    } else if ok && asset_ref_len(s) > 0 {
        s.take(asset_ref_len(s) as int) == t && refs_read(s.skip(asset_ref_len(s) as int), false, t)
    } else {
        refs_read(s.skip(1), !is_path_char(s[0]), t)
    }
}

/// The number of `../` that `s` starts with from position `i`.
fn lead_ups_at(s: &Vec<char>, i: usize) -> (k: usize)
    requires
        i <= s.len(),
    ensures
        k == lead_ups(s@.skip(i as int)),
        i + 3 * k <= s.len(),
{
    let up = chars_of("../");
    proof {
        reveal_strlit("../");
    }
    assert(up@ =~= up_seq());
    let mut k: usize = 0;
    let mut j: usize = i;
    let mut go = matches_at(s, &up, j);
    while go
        invariant
            i <= j <= s.len(),
            j == i + 3 * k,
            up@ == up_seq(),
            go == crate::text::occurs_at(s@, up@, j as int),
            lead_ups(s@.skip(i as int)) == k + lead_ups(s@.skip(j as int)),
        decreases s.len() - j,
    {
        let ghost rest = s@.skip(j as int);
        assert(rest.take(3) =~= s@.subrange(j as int, j + 3));
        assert(rest.skip(3) =~= s@.skip(j + 3));
        j = j + 3;
        k = k + 1;
        go = matches_at(s, &up, j);
    }
    proof {
        let rest = s@.skip(j as int);
        if rest.len() >= 3 && rest.take(3) == up_seq() {
            assert(rest.take(3) =~= s@.subrange(j as int, j + 3));
        }
    }
    k
}

/// The length of the asset reference that starts at position `i` of `s`.
fn asset_ref_len_at(s: &Vec<char>, i: usize) -> (m: usize)
    requires
        i <= s.len(),
    ensures
        m == asset_ref_len(s@.skip(i as int)),
        i + m <= s.len(),
{
    let ghost rest = s@.skip(i as int);
    let k = lead_ups_at(s, i);
    let a = chars_of("assets/");
    let d = chars_of("./assets/");
    proof {
        reveal_strlit("assets/");
        reveal_strlit("./assets/");
    }
    assert(a@ =~= assets_seq());
    assert(d@ =~= dot_assets_seq());
    if k >= 1 && matches_at(s, &a, i + 3 * k) {
        assert(rest.subrange(3 * k as int, 3 * k as int + 7) =~= s@.subrange(i + 3 * k, i + 3 * k + 7));
        3 * k + 7
    } else {
        proof {
            if k >= 1 && 3 * k + 7 <= rest.len() && rest.subrange(3 * k as int, 3 * k as int + 7) == assets_seq() {
                assert(rest.subrange(3 * k as int, 3 * k as int + 7) =~= s@.subrange(i + 3 * k, i + 3 * k + 7));
            }
        }
        if matches_at(s, &d, i) {
            assert(rest.take(9) =~= s@.subrange(i as int, i + 9));
            9
        } else {
            proof {
                if 9 <= rest.len() && rest.take(9) == dot_assets_seq() {
                    assert(rest.take(9) =~= s@.subrange(i as int, i + 9));
                }
            }
            0
        }
    }
}

/// `s` with each asset reference replaced by `t` (see `fix_refs`, starting where a
/// reference may start).
pub fn fix_refs_vec(s: &Vec<char>, t: &Vec<char>) -> (out: Vec<char>)
    ensures
        out@ == fix_refs(s@, true, t@),
{
    let mut out: Vec<char> = Vec::new();
    let mut i: usize = 0;
    let mut ok = true;
    assert(s@.skip(0) =~= s@);
    while i < s.len()
        invariant
            i <= s.len(),
            fix_refs(s@, true, t@) == out@ + fix_refs(s@.skip(i as int), ok, t@),
        decreases s.len() - i,
    {
        let ghost rest = s@.skip(i as int);
        let ghost before = out@;
        let m = asset_ref_len_at(s, i);
        if ok && m > 0 {
            assert(rest.skip(m as int) =~= s@.skip(i + m));
            append_vec(&mut out, t);
            assert(before + (t@ + fix_refs(rest.skip(m as int), false, t@)) =~= out@ + fix_refs(
                s@.skip(i + m),
                false,
                t@,
            ));
            i = i + m;
            ok = false;
        } else {
            let c = s[i];
            assert(rest[0] == c);
            assert(rest.skip(1) =~= s@.skip(i + 1));
            out.push(c);
            let nok = !(c == '.' || c == '/');
            assert(before + (seq![c] + fix_refs(rest.skip(1), nok, t@)) =~= out@ + fix_refs(
                s@.skip(i + 1),
                nok,
                t@,
            ));
            ok = nok;
            i = i + 1;
        }
    }
    assert(s@.skip(i as int) =~= Seq::<char>::empty());
    assert(out@ + Seq::<char>::empty() =~= out@);
    out
}

/// `ups(n)` has length `3 * n` and, for `n >= 1`, starts with `../`.
pub(crate) proof fn lemma_ups_front(n: nat)
    ensures
        ups(n).len() == 3 * n,
        n >= 1 ==> ups(n) == up_seq() + ups((n - 1) as nat),
    decreases n,
{
    reveal_strlit("../");
    if n >= 1 {
        lemma_ups_front((n - 1) as nat);
        if n >= 2 {
            assert(ups(n) =~= up_seq() + ups((n - 1) as nat));
        } else {
            assert(ups(n) =~= up_seq() + ups((n - 1) as nat));
        }
    }
}

/// A run of `n` times `../` adds `n` to the run that follows.
proof fn lemma_lead_ups(n: nat, r: Seq<char>)
    ensures
        lead_ups(ups(n) + r) == n + lead_ups(r),
    decreases n,
{
    lemma_ups_front(n);
    if n == 0 {
        assert(ups(n) + r =~= r);
    } else {
        let x = ups(n) + r;
        lemma_ups_front((n - 1) as nat);
        assert(x.take(3) =~= up_seq());
        assert(x.skip(3) =~= ups((n - 1) as nat) + r);
        lemma_lead_ups((n - 1) as nat, r);
    }
}

/// A string that starts with `assets/` starts with no `../`.
proof fn lemma_lead_ups_assets(r: Seq<char>)
    requires
        assets_seq().is_prefix_of(r),
    ensures
        lead_ups(r) == 0,
{
    assert(r[0] == 'a');
    if r.len() >= 3 && r.take(3) == up_seq() {
        assert(r.take(3)[0] == r[0]);
    }
}

/// The run of `../` that `x` starts with is its prefix `ups(lead_ups(x))`.
proof fn lemma_lead_prefix(x: Seq<char>)
    ensures
        3 * lead_ups(x) <= x.len(),
        x.take(3 * lead_ups(x) as int) == ups(lead_ups(x)),
    decreases x.len(),
{
    let k = lead_ups(x);
    lemma_ups_front(k);
    if k == 0 {
        assert(x.take(0) =~= ups(0));
    } else {
        lemma_lead_prefix(x.skip(3));
        assert(x.take(3 * k as int) =~= x.take(3) + x.skip(3).take(3 * (k - 1)));
    }
}

/// A reference recognised at the start of `x` is `ups(k)` + `assets/` for some `k >= 1`,
/// or `./assets/`.
proof fn lemma_ref_shape(x: Seq<char>)
    requires
        asset_ref_len(x) > 0,
    ensures
        ({
            let m = asset_ref_len(x);
            let k = lead_ups(x);
            (k >= 1 && m == 3 * k + 7 && x.take(m as int) == ups(k) + assets_seq()) || (m == 9
                && x.take(9) == dot_assets_seq())
        }),
{
    let k = lead_ups(x);
    let m = asset_ref_len(x);
    if k >= 1 && 3 * k + 7 <= x.len() && x.subrange(3 * k as int, 3 * k as int + 7) == assets_seq() {
        lemma_lead_prefix(x);
        assert(x.take(m as int) =~= x.take(3 * k as int) + x.subrange(3 * k as int, 3 * k as int + 7));
    }
}

/// A string that starts with a reference of either shape has one recognised at its start.
proof fn lemma_ref_of_prefix(x: Seq<char>, k: nat)
    ensures
        k >= 1 && (ups(k) + assets_seq()).is_prefix_of(x) ==> asset_ref_len(x) == 3 * k + 7,
        dot_assets_seq().is_prefix_of(x) ==> asset_ref_len(x) > 0,
{
    if k >= 1 && (ups(k) + assets_seq()).is_prefix_of(x) {
        lemma_ups_front(k);
        let p = ups(k) + assets_seq();
        assert(p.len() == 3 * k + 7);
        assert(x.take(p.len() as int) == p);
        let r = x.skip(3 * k as int);
        assert(x.take(3 * k as int) =~= p.take(3 * k as int));
        assert(p.take(3 * k as int) =~= ups(k));
        assert(x =~= ups(k) + r);
        assert(x.subrange(3 * k as int, 3 * k as int + 7) =~= p.subrange(3 * k as int, 3 * k as int + 7));
        assert(p.subrange(3 * k as int, 3 * k as int + 7) =~= assets_seq());
        assert(r.take(7) =~= x.subrange(3 * k as int, 3 * k as int + 7));
        assert(assets_seq().is_prefix_of(r));
        lemma_lead_ups_assets(r);
        lemma_lead_ups(k, r);
        assert(lead_ups(x) == k);
    }
}

/// Whether the characters of `w` would be copied unchanged by the scan starting in
/// state `ok`: no `.` where a reference may start.
spec fn copies(w: Seq<char>, ok: bool) -> bool
    decreases w.len(),
{
    if w.len() == 0 {
        true
    } else {
        (ok ==> w[0] != '.') && copies(w.skip(1), !is_path_char(w[0]))
    }
}

proof fn lemma_copies_cons(c: char, q: Seq<char>, ok: bool)
    ensures
        copies(seq![c] + q, ok) == ((ok ==> c != '.') && copies(q, !is_path_char(c))),
{
    let w = seq![c] + q;
    assert(w[0] == c);
    assert(w.skip(1) =~= q);
}

proof fn lemma_copies_ups(k: nat, r: Seq<char>)
    requires
        copies(r, false),
    ensures
        copies(ups(k) + r, false),
    decreases k,
{
    lemma_ups_front(k);
    if k == 0 {
        assert(ups(k) + r =~= r);
    } else {
        lemma_copies_ups((k - 1) as nat, r);
        let q = ups((k - 1) as nat) + r;
        lemma_copies_cons('/', q, false);
        lemma_copies_cons('.', seq!['/'] + q, false);
        lemma_copies_cons('.', seq!['.'] + (seq!['/'] + q), false);
        assert(ups(k) + r =~= seq!['.'] + (seq!['.'] + (seq!['/'] + q)));
    }
}

proof fn lemma_copies_assets()
    ensures
        copies(assets_seq(), false),
        copies(seq!['/'] + assets_seq(), false),
{
    let e = Seq::<char>::empty();
    let q6 = seq!['/'] + e;
    let q5 = seq!['s'] + q6;
    let q4 = seq!['t'] + q5;
    let q3 = seq!['e'] + q4;
    let q2 = seq!['s'] + q3;
    let q1 = seq!['s'] + q2;
    let q0 = seq!['a'] + q1;
    lemma_copies_cons('/', e, true);
    lemma_copies_cons('s', q6, true);
    lemma_copies_cons('t', q5, true);
    lemma_copies_cons('e', q4, true);
    lemma_copies_cons('s', q3, true);
    lemma_copies_cons('s', q2, true);
    lemma_copies_cons('a', q1, false);
    assert(q0 =~= assets_seq());
    lemma_copies_cons('/', assets_seq(), false);
}

/// What the scan copies unchanged was there in the input.
proof fn lemma_copied_prefix(s: Seq<char>, ok: bool, t: Seq<char>, w: Seq<char>)
    requires
        t.len() > 0,
        t[0] == '.',
        copies(w, ok),
        w.is_prefix_of(fix_refs(s, ok, t)),
    ensures
        w.is_prefix_of(s),
    decreases w.len(),
{
    if w.len() > 0 {
        let f = fix_refs(s, ok, t);
        assert(f[0] == w[0]);
        if ok && asset_ref_len(s) > 0 {
            assert(f[0] == t[0]);
        } else {
            let y = fix_refs(s.skip(1), !is_path_char(s[0]), t);
            assert(f =~= seq![s[0]] + y);
            assert(w.skip(1).is_prefix_of(y)) by {
                assert(y.take(w.len() - 1) =~= f.take(w.len() as int).skip(1));
            }
            lemma_copied_prefix(s.skip(1), !is_path_char(s[0]), t, w.skip(1));
            assert(s.take(w.len() as int) =~= seq![s[0]] + s.skip(1).take(w.len() - 1));
            assert(w =~= seq![w[0]] + w.skip(1));
        }
    }
}

/// Scanning the output of the scan again changes nothing, when `t` is a reference to
/// `assets/` through `n >= 1` times `../`.
proof fn lemma_fix_refs_idempotent(s: Seq<char>, ok: bool, t: Seq<char>, n: nat)
    requires
        n >= 1,
        t == ups(n) + assets_seq(),
    ensures
        fix_refs(fix_refs(s, ok, t), ok, t) == fix_refs(s, ok, t),
    decreases s.len(),
{
    lemma_ups_front(n);
    assert(t[0] == '.');
    if s.len() > 0 {
        if ok && asset_ref_len(s) > 0 {
            let m = asset_ref_len(s);
            let x = fix_refs(s.skip(m as int), false, t);
            let f = t + x;
            lemma_ref_of_prefix(f, n);
            assert(t.is_prefix_of(f)) by {
                assert(f.take(t.len() as int) =~= t);
            }
            assert(f.skip(t.len() as int) =~= x);
            lemma_fix_refs_idempotent(s.skip(m as int), false, t, n);
        } else {
            let c = s[0];
            let s1 = s.skip(1);
            let ok1 = !is_path_char(c);
            let y = fix_refs(s1, ok1, t);
            let f = seq![c] + y;
            assert(f[0] == c);
            assert(f.skip(1) =~= y);
            if ok && asset_ref_len(f) > 0 {
                lemma_ref_shape(f);
                let m = asset_ref_len(f);
                let k = lead_ups(f);
                let p = f.take(m as int);
                assert(s =~= seq![c] + s1);
                if k >= 1 && m == 3 * k + 7 && p == ups(k) + assets_seq() {
                    lemma_ups_front(k);
                    assert(p[0] == '.');
                    let w = seq!['.', '/'] + (ups((k - 1) as nat) + assets_seq());
                    assert(p =~= seq!['.'] + w);
                    lemma_copies_assets();
                    lemma_copies_ups((k - 1) as nat, assets_seq());
                    lemma_copies_cons('/', ups((k - 1) as nat) + assets_seq(), false);
                    assert(seq!['.', '/'] + (ups((k - 1) as nat) + assets_seq()) =~= seq!['.'] + (seq![
                        '/',
                    ] + (ups((k - 1) as nat) + assets_seq())));
                    lemma_copies_cons('.', seq!['/'] + (ups((k - 1) as nat) + assets_seq()), false);
                    assert(w.is_prefix_of(y)) by {
                        assert(y.take(w.len() as int) =~= p.skip(1));
                    }
                    lemma_copied_prefix(s1, ok1, t, w);
                    assert(p.is_prefix_of(s)) by {
                        assert(s.take(p.len() as int) =~= seq![c] + s1.take(w.len() as int));
                    }
                    lemma_ref_of_prefix(s, k);
                } else {
                    let w = seq!['/'] + assets_seq();
                    assert(p =~= seq!['.'] + w);
                    lemma_copies_assets();
                    assert(w.is_prefix_of(y)) by {
                        assert(y.take(w.len() as int) =~= p.skip(1));
                    }
                    lemma_copied_prefix(s1, ok1, t, w);
                    assert(p.is_prefix_of(s)) by {
                        assert(s.take(p.len() as int) =~= seq![c] + s1.take(w.len() as int));
                    }
                    lemma_ref_of_prefix(s, 0);
                }
                assert(false);
            }
            lemma_fix_refs_idempotent(s1, ok1, t, n);
        }
    }
}

/// A text whose references all read `t` comes back from the scan unchanged.
proof fn lemma_fix_refs_read(s: Seq<char>, ok: bool, t: Seq<char>)
    requires
        refs_read(s, ok, t),
    ensures
        fix_refs(s, ok, t) == s,
    decreases s.len(),
{
    if s.len() > 0 {
        if ok && asset_ref_len(s) > 0 {
            let m = asset_ref_len(s);
            lemma_fix_refs_read(s.skip(m as int), false, t);
            assert(s =~= s.take(m as int) + s.skip(m as int));
        } else {
            lemma_fix_refs_read(s.skip(1), !is_path_char(s[0]), t);
            assert(s =~= seq![s[0]] + s.skip(1));
        }
    }
}

/// Rewriting the references of a text to `assets/` through `n >= 1` times `../`, twice,
/// gives what rewriting once does.
pub(crate) proof fn lemma_fix_refs_twice(s: Seq<char>, n: nat)
    requires
        n >= 1,
    ensures
        fix_refs(fix_refs(s, true, ups(n) + assets_seq()), true, ups(n) + assets_seq()) == fix_refs(
            s,
            true,
            ups(n) + assets_seq(),
        ),
{
    lemma_fix_refs_idempotent(s, true, ups(n) + assets_seq(), n);
}

/// A text whose asset references already all read `t` is left as it is.
pub(crate) proof fn lemma_fix_refs_keeps_read(s: Seq<char>, t: Seq<char>)
    requires
        refs_read(s, true, t),
    ensures
        fix_refs(s, true, t) == s,
{
    lemma_fix_refs_read(s, true, t);
}

} // verus!
