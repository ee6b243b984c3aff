//! Relative paths between repository files, with the component rules of
//! `std::path` on Unix-style paths.

use vstd::prelude::*;
use crate::text;
use crate::text::{append_vec, chars_of, replace_vec, slice_vec, string_of, vec_eq};

verus! {

/// The pieces of `s` between occurrences of `c` (`str::split`).
pub open spec fn split_char(s: Seq<char>, c: char) -> Seq<Seq<char>>
    decreases s.len(),
{
    match text::find_seq(s, seq![c]) {
        None => seq![s],
        Some(i) => if 0 <= i < s.len() {
            seq![s.take(i)] + split_char(s.skip(i + 1), c)
        } else {
            seq![s]
        },
    }
}

/// The non-empty pieces of a path that name components; a `.` piece is kept only
/// when it opens a path without a root.
pub open spec fn comp_pieces(ps: Seq<Seq<char>>, keep_dot_first: bool) -> Seq<Seq<char>>
    decreases ps.len(),
{
    if ps.len() == 0 {
        seq![]
    } else {
        let p = ps[0];
        let rest = comp_pieces(ps.drop_first(), false);
        if p.len() == 0 || (p == "."@ && !keep_dot_first) {
            rest
        } else {
            seq![p] + rest
        }
    }
}

/// The path starts at the root.
pub open spec fn has_root(s: Seq<char>) -> bool {
    s.len() > 0 && s[0] == '/'
}

/// `Path::components`, each component written as its `as_os_str` text: `/` for the
/// root, `.` for a leading current directory, `..` for a parent, the name otherwise.
pub open spec fn components(s: Seq<char>) -> Seq<Seq<char>> {
    let root: Seq<Seq<char>> = if has_root(s) { seq!["/"@] } else { seq![] };
    root + comp_pieces(split_char(s, '/'), !has_root(s))
}

/// `PathBuf::push`: an absolute `p` replaces `base`; otherwise `p` is appended after a
/// separator when `base` is non-empty and does not already end with one.
pub open spec fn push_path(base: Seq<char>, p: Seq<char>) -> Seq<char> {
    if has_root(p) {
        p
    } else if base.len() == 0 || base.last() == '/' {
        base + p
    } else {
        base + seq!['/'] + p
    }
}

/// The components of the parent of a path (`Path::parent`, empty when there is none).
pub open spec fn parent_components(s: Seq<char>) -> Seq<Seq<char>> {
    let cs = components(s);
    if cs.len() == 0 { cs } else { cs.drop_last() }
}

/// The length of the longest common prefix of two component lists.
pub open spec fn common_prefix_len(a: Seq<Seq<char>>, b: Seq<Seq<char>>) -> nat
    decreases a.len(),
{
    if a.len() == 0 || b.len() == 0 || a[0] != b[0] {
        0
    } else {
        1 + common_prefix_len(a.drop_first(), b.drop_first())
    }
}

/// `../` repeated `n` times.
pub open spec fn ups(n: nat) -> Seq<char>
    decreases n,
{
    if n == 0 { seq![] } else { ups((n - 1) as nat) + "../"@ }
}

/// Appends each component after `acc`, adding a `/` before it unless `acc` already
/// ends with one.
pub open spec fn append_comps(acc: Seq<char>, cs: Seq<Seq<char>>) -> Seq<char>
    decreases cs.len(),
{
    if cs.len() == 0 {
        acc
    } else {
        let with_sep = if acc.len() > 0 && acc.last() == '/' { acc } else { acc.push('/') };
        append_comps(with_sep + cs[0], cs.drop_first())
    }
}

/// The relative path from the directory holding `content_dir/collection/file` to
/// `target`: one `../` per directory left after the common prefix (or `./` when there
/// is none), then the remaining components of `target`, with `\` turned into `/`.
pub open spec fn rel_path_spec(
    content_dir: Seq<char>,
    collection: Seq<char>,
    file: Seq<char>,
    target: Seq<char>,
) -> Seq<char> {
    let from = parent_components(push_path(push_path(content_dir, collection), file));
    let to = components(target);
    let c = common_prefix_len(from, to);
    let up = ups((from.len() - c) as nat);
    let start = if up.len() == 0 { "./"@ } else { up };
    text::replace_seq(append_comps(start, to.skip(c as int)), "\\"@, "/"@)
}

/// The pieces of `s` between occurrences of `c`.
pub fn split_char_vec(s: &Vec<char>, c: char) -> (r: Vec<Vec<char>>)
    ensures
        text::seqs_of(r@) == split_char(s@, c),
{
    let mut r: Vec<Vec<char>> = Vec::new();
    let mut start: usize = 0;
    let mut i: usize = 0;
    assert(s@.skip(0) =~= s@);
    while i < s.len()
        invariant
            start <= i <= s.len(),
            split_char(s@, c) == text::seqs_of(r@) + split_char(s@.skip(start as int), c),
            forall|j: int| start <= j < i ==> s@[j] != c,
        decreases s.len() - i,
    {
        if s[i] == c {
            let ghost rest = s@.skip(start as int);
            proof {
                text::lemma_find_char(rest, c, i - start);
            }
            let piece = slice_vec(s, start, i);
            assert(rest.take(i - start) =~= piece@);
            assert(rest.skip(i - start + 1) =~= s@.skip(i + 1));
            let ghost before = text::seqs_of(r@);
            r.push(piece);
            assert(text::seqs_of(r@) =~= before.push(piece@));
            start = i + 1;
        }
        i += 1;
    }
    let ghost rest = s@.skip(start as int);
    proof {
        text::lemma_find_char_none(rest, c);
    }
    let piece = slice_vec(s, start, s.len());
    assert(piece@ =~= rest);
    let ghost before = text::seqs_of(r@);
    r.push(piece);
    assert(text::seqs_of(r@) =~= before.push(piece@));
    r
}

/// `Path::components` as component texts.
pub fn components_vec(s: &Vec<char>) -> (r: Vec<Vec<char>>)
    ensures
        text::seqs_of(r@) == components(s@),
{
    let rooted = s.len() > 0 && s[0] == '/';
    let mut r: Vec<Vec<char>> = Vec::new();
    if rooted {
        let root = vec!['/'];
        r.push(root);
        proof {
            reveal_strlit("/");
        }
        assert(r@[0]@ =~= "/"@);
        assert(text::seqs_of(r@) =~= seq!["/"@]);
    } else {
        assert(text::seqs_of(r@) =~= Seq::<Seq<char>>::empty());
    }
    let pieces = split_char_vec(s, '/');
    let ghost head = text::seqs_of(r@);
    let ghost pv = text::seqs_of(pieces@);
    let mut k: usize = 0;
    proof {
        reveal_strlit(".");
    }
    assert(pv.skip(0) =~= pv);
    while k < pieces.len()
        invariant
            k <= pieces.len(),
            pv == text::seqs_of(pieces@),
            components(s@) == head + comp_pieces(pv, !rooted),
            head + comp_pieces(pv, !rooted) == text::seqs_of(r@) + comp_pieces(pv.skip(k as int), !rooted && k == 0),
            rooted == has_root(s@),
        decreases pieces.len() - k,
    {
        let p = &pieces[k];
        assert(pv.skip(k as int)[0] == p@);
        assert(pv.skip(k as int).drop_first() =~= pv.skip(k + 1));
        proof {
            reveal_strlit(".");
        }
        let is_dot = p.len() == 1 && p[0] == '.';
        assert(is_dot == (p@ == "."@)) by {
            if p@.len() == 1 && p@[0] == '.' {
                assert(p@ =~= "."@);
            }
        }
        if p.len() == 0 || (is_dot && !(!rooted && k == 0)) {
        } else {
            let ghost before = text::seqs_of(r@);
            r.push(p.clone());
            assert(text::seqs_of(r@) =~= before.push(p@));
            assert(before.push(p@) + comp_pieces(pv.skip(k + 1), false) =~= before + (seq![p@] + comp_pieces(pv.skip(k + 1), false)));
        }
        k += 1;
    }
    assert(pv.skip(k as int) =~= Seq::<Seq<char>>::empty());
    assert(text::seqs_of(r@) + Seq::<Seq<char>>::empty() =~= text::seqs_of(r@));
    r
}

/// `PathBuf::push` on character sequences.
pub fn push_path_vec(base: &Vec<char>, p: &Vec<char>) -> (r: Vec<char>)
    ensures
        r@ == push_path(base@, p@),
{
    if p.len() > 0 && p[0] == '/' {
        return p.clone();
    }
    let mut r = base.clone();
    if !(base.len() == 0 || base[base.len() - 1] == '/') {
        r.push('/');
    }
    append_vec(&mut r, p);
    r
}

/// Computes the relative path from a content file to a target given relative to the
/// repository root, as used in MDX imports (for example `../../assets/image.png`).
pub fn calculate_rel_path(content_dir: &str, collection: &str, file: &str, target_repo_rel: &str) -> (r: String)
    ensures
        r@ == rel_path_spec(content_dir@, collection@, file@, target_repo_rel@),
{
    let joined = push_path_vec(&push_path_vec(&chars_of(content_dir), &chars_of(collection)), &chars_of(file));
    let mut from = components_vec(&joined);
    if from.len() > 0 {
        from.pop();
    }
    let to = components_vec(&chars_of(target_repo_rel));
    let ghost fv = text::seqs_of(from@);
    let ghost tv = text::seqs_of(to@);
    assert(fv =~= parent_components(push_path(push_path(content_dir@, collection@), file@)));
    let mut common: usize = 0;
    assert(fv.skip(0) =~= fv);
    assert(tv.skip(0) =~= tv);
    while common < from.len() && common < to.len() && vec_eq(&from[common], &to[common])
        invariant
            common <= from.len(),
            common <= to.len(),
            fv == text::seqs_of(from@),
            tv == text::seqs_of(to@),
            common_prefix_len(fv, tv) == common + common_prefix_len(fv.skip(common as int), tv.skip(common as int)),
        decreases from.len() - common,
    {
        assert(fv.skip(common as int).drop_first() =~= fv.skip(common + 1));
        assert(tv.skip(common as int).drop_first() =~= tv.skip(common + 1));
        common += 1;
    }
    assert(common_prefix_len(fv.skip(common as int), tv.skip(common as int)) == 0);
    let mut rel: Vec<char> = Vec::new();
    let n = from.len() - common;
    let mut u: usize = 0;
    proof {
        reveal_strlit("../");
        reveal_strlit("./");
    }
    while u < n
        invariant
            u <= n,
            rel@ == ups(u as nat),
        decreases n - u,
    {
        rel.push('.');
        rel.push('.');
        rel.push('/');
        proof {
            reveal_strlit("../");
        }
        assert(rel@ =~= ups(u as nat) + "../"@);
        u += 1;
    }
    if rel.len() == 0 {
        rel.push('.');
        rel.push('/');
        assert(rel@ =~= "./"@);
    }
    let ghost start = rel@;
    let mut k = common;
    assert(tv.skip(common as int).skip(0) =~= tv.skip(common as int));
    while k < to.len()
        invariant
            common <= k <= to.len(),
            tv == text::seqs_of(to@),
            append_comps(start, tv.skip(common as int)) == append_comps(rel@, tv.skip(k as int)),
        decreases to.len() - k,
    {
        assert(tv.skip(k as int)[0] == to@[k as int]@);
        assert(tv.skip(k as int).drop_first() =~= tv.skip(k + 1));
        if !(rel.len() > 0 && rel[rel.len() - 1] == '/') {
            rel.push('/');
        }
        append_vec(&mut rel, &to[k]);
        k += 1;
    }
    assert(tv.skip(k as int) =~= Seq::<Seq<char>>::empty());
    proof {
        reveal_strlit("\\");
    }
    let out = replace_vec(&rel, &chars_of("\\"), &chars_of("/"));
    string_of(&out)
}

} // verus!

verus! {

/// Two paths are equal as `PathBuf`s compare them: component by component.
pub open spec fn same_path(a: Seq<char>, b: Seq<char>) -> bool {
    components(a) == components(b)
}

/// `PathBuf` equality on path texts.
pub fn same_path_exec(a: &str, b: &str) -> (r: bool)
    ensures
        r == same_path(a@, b@),
{
    let ca = components_vec(&chars_of(a));
    let cb = components_vec(&chars_of(b));
    if ca.len() != cb.len() {
        assert(text::seqs_of(ca@).len() != text::seqs_of(cb@).len());
        return false;
    }
    let mut i: usize = 0;
    while i < ca.len()
        invariant
            i <= ca.len() == cb.len(),
            text::seqs_of(ca@) == components(a@),
            text::seqs_of(cb@) == components(b@),
            forall|j: int| 0 <= j < i ==> ca@[j]@ == cb@[j]@,
        decreases ca.len() - i,
    {
        if !vec_eq(&ca[i], &cb[i]) {
            assert(text::seqs_of(ca@)[i as int] != text::seqs_of(cb@)[i as int]);
            return false;
        }
        i += 1;
    }
    assert(text::seqs_of(ca@) =~= text::seqs_of(cb@));
    true
}

} // verus!

verus! {

/// What is appended keeps the text it is appended to in front.
pub proof fn lemma_append_comps_prefix(acc: Seq<char>, cs: Seq<Seq<char>>)
    ensures
        acc.is_prefix_of(append_comps(acc, cs)),
    decreases cs.len(),
{
    if cs.len() > 0 {
        let with_sep = if acc.len() > 0 && acc.last() == '/' {
            acc
        } else {
            acc.push('/')
        };
        lemma_append_comps_prefix(with_sep + cs[0], cs.drop_first());
        assert(acc.is_prefix_of(with_sep + cs[0]));
    }
}

/// Turning `\` into `/` keeps a prefix that holds no `\`.
pub proof fn lemma_replace_backslash_prefix(p: Seq<char>, s: Seq<char>)
    requires
        p.is_prefix_of(s),
        forall|i: int| 0 <= i < p.len() ==> #[trigger] p[i] != '\\',
    ensures
        p.is_prefix_of(text::replace_seq(s, "\\"@, "/"@)),
    decreases s.len(),
{
    reveal_strlit("\\");
    reveal_strlit("/");
    if p.len() > 0 {
        assert(s.take(1) != "\\"@) by {
            assert(s.take(1)[0] == p[0]);
        }
        assert(p.drop_first().is_prefix_of(s.skip(1))) by {
            assert forall|i: int| 0 <= i < p.drop_first().len() implies p.drop_first()[i] == s.skip(1)[i] by {
                assert(p[i + 1] == s[i + 1]);
            }
        }
        lemma_replace_backslash_prefix(p.drop_first(), s.skip(1));
        let r = text::replace_seq(s.skip(1), "\\"@, "/"@);
        assert(text::replace_seq(s, "\\"@, "/"@) == seq![s[0]] + r);
        assert forall|i: int| 0 <= i < p.len() implies p[i] == (seq![s[0]] + r)[i] by {
            if i > 0 {
                assert(p.drop_first()[i - 1] == p[i]);
            }
        }
    }
}

/// `../` opens every non-empty run of `../`.
pub proof fn lemma_ups_prefix(n: nat)
    requires
        n > 0,
    ensures
        "../"@.is_prefix_of(ups(n)),
    decreases n,
{
    reveal_strlit("../");
    if n == 1 {
        assert(ups(0) =~= Seq::<char>::empty());
        assert(ups(1) =~= "../"@);
    } else {
        lemma_ups_prefix((n - 1) as nat);
        assert("../"@.is_prefix_of(ups((n - 1) as nat) + "../"@));
    }
}

/// The path computed for an import is relative as JavaScript requires: it starts
/// with `./` or `../`.
pub proof fn law_rel_path_is_relative(
    content_dir: Seq<char>,
    collection: Seq<char>,
    file: Seq<char>,
    target: Seq<char>,
)
    ensures
        "./"@.is_prefix_of(rel_path_spec(content_dir, collection, file, target)) || "../"@.is_prefix_of(
            rel_path_spec(content_dir, collection, file, target),
        ),
{
    reveal_strlit("./");
    reveal_strlit("../");
    let from = parent_components(push_path(push_path(content_dir, collection), file));
    let to = components(target);
    let c = common_prefix_len(from, to);
    let up = ups((from.len() - c) as nat);
    let start = if up.len() == 0 { "./"@ } else { up };
    lemma_append_comps_prefix(start, to.skip(c as int));
    if up.len() == 0 {
        lemma_replace_backslash_prefix("./"@, append_comps(start, to.skip(c as int)));
    } else {
        if (from.len() - c) as nat == 0 {
            assert(ups(0) =~= Seq::<char>::empty());
        }
        lemma_ups_prefix((from.len() - c) as nat);
        assert("../"@.is_prefix_of(append_comps(start, to.skip(c as int)))) by {
            assert forall|i: int| 0 <= i < 3 implies "../"@[i] == append_comps(start, to.skip(c as int))[i] by {
                assert(up[i] == "../"@[i]);
                assert(start.is_prefix_of(append_comps(start, to.skip(c as int))));
            }
        }
        lemma_replace_backslash_prefix("../"@, append_comps(start, to.skip(c as int)));
    }
}

} // verus!

verus! {

/// A plain path component: not empty, not `.` or `..`, without `/` or `\`.
pub open spec fn is_name(p: Seq<char>) -> bool {
    &&& p.len() > 0
    &&& p != "."@
    &&& p != ".."@
    &&& forall|i: int| 0 <= i < p.len() ==> p[i] != '/' && p[i] != '\\'
}

/// Every component is a plain name.
pub open spec fn all_names(cs: Seq<Seq<char>>) -> bool {
    forall|i: int| 0 <= i < cs.len() ==> is_name(#[trigger] cs[i])
}

/// `n` components `..`.
pub open spec fn dotdots(n: nat) -> Seq<Seq<char>> {
    Seq::new(n, |i: int| ".."@)
}

/// The directory components of a document of a collection: the components of
/// `content_dir/collection/file` without the last.
pub open spec fn source_dirs(content_dir: Seq<char>, collection: Seq<char>, file: Seq<char>) -> Seq<Seq<char>> {
    parent_components(push_path(push_path(content_dir, collection), file))
}

/// Following the components of a relative path from the directory `base`: `.` stays,
/// `..` goes up (not above the top), a name goes down.
pub open spec fn resolve(base: Seq<Seq<char>>, rel: Seq<Seq<char>>) -> Seq<Seq<char>>
    decreases rel.len(),
{
    if rel.len() == 0 {
        base
    } else if rel[0] == "."@ {
        resolve(base, rel.drop_first())
    } else if rel[0] == ".."@ {
        resolve(if base.len() > 0 { base.drop_last() } else { base }, rel.drop_first())
    } else {
        resolve(base.push(rel[0]), rel.drop_first())
    }
}

/// A path split at a separator splits into the pieces of each side.
proof fn lemma_split_sep(u: Seq<char>, v: Seq<char>)
    ensures
        split_char(u + seq!['/'] + v, '/') == split_char(u, '/') + split_char(v, '/'),
    decreases u.len(),
{
    let s = u + seq!['/'] + v;
    text::lemma_find_seq(u, seq!['/']);
    match text::find_seq(u, seq!['/']) {
        Some(i) => {
            text::lemma_occurs_char(u, '/', i);
            assert forall|j: int| 0 <= j < i implies s[j] != '/' by {
                text::lemma_occurs_char(u, '/', j);
            }
            text::lemma_find_char(s, '/', i);
            assert(s.take(i) =~= u.take(i));
            assert(s.skip(i + 1) =~= u.skip(i + 1) + seq!['/'] + v);
            lemma_split_sep(u.skip(i + 1), v);
            assert(split_char(u, '/') == seq![u.take(i)] + split_char(u.skip(i + 1), '/'));
            assert(split_char(s, '/') == seq![s.take(i)] + split_char(s.skip(i + 1), '/'));
            assert(seq![u.take(i)] + (split_char(u.skip(i + 1), '/') + split_char(v, '/')) =~= (seq![u.take(i)]
                + split_char(u.skip(i + 1), '/')) + split_char(v, '/'));
        },
        None => {
            assert forall|j: int| 0 <= j < u.len() implies s[j] != '/' by {
                text::lemma_occurs_char(u, '/', j);
            }
            text::lemma_find_char(s, '/', u.len() as int);
            assert(s.take(u.len() as int) =~= u);
            assert(s.skip(u.len() as int + 1) =~= v);
            assert(split_char(u, '/') == seq![u]);
        },
    }
}

/// A piece without `/` splits into itself.
proof fn lemma_split_plain(u: Seq<char>)
    requires
        forall|i: int| 0 <= i < u.len() ==> u[i] != '/',
    ensures
        split_char(u, '/') == seq![u],
{
    text::lemma_find_char_none(u, '/');
}

/// Names joined with `/` split back into the names.
proof fn lemma_split_join(cs: Seq<Seq<char>>)
    requires
        cs.len() >= 1,
        all_names(cs),
    ensures
        split_char(text::join_seq(cs, "/"@), '/') == cs,
    decreases cs.len(),
{
    reveal_strlit("/");
    assert("/"@ =~= seq!['/']);
    let last = cs.last();
    assert(is_name(cs[cs.len() - 1]));
    lemma_split_plain(last);
    if cs.len() == 1 {
        assert(seq![last] =~= cs);
    } else {
        let init = cs.drop_last();
        assert forall|i: int| 0 <= i < init.len() implies is_name(#[trigger] init[i]) by {
            assert(init[i] == cs[i]);
        }
        lemma_split_join(init);
        lemma_split_sep(text::join_seq(init, "/"@), last);
        assert(init.push(last) =~= cs);
        assert(init + seq![last] =~= cs);
    }
}

/// No character of names joined with `/` is a `\`.
proof fn lemma_join_no_backslash(cs: Seq<Seq<char>>)
    requires
        all_names(cs),
    ensures
        forall|i: int| 0 <= i < text::join_seq(cs, "/"@).len() ==> text::join_seq(cs, "/"@)[i] != '\\',
    decreases cs.len(),
{
    reveal_strlit("/");
    assert("/"@ =~= seq!['/']);
    let j = text::join_seq(cs, "/"@);
    if cs.len() == 1 {
        assert(is_name(cs[0]));
        assert(j == cs[0]);
    } else if cs.len() >= 2 {
        let init = cs.drop_last();
        assert forall|i: int| 0 <= i < init.len() implies is_name(#[trigger] init[i]) by {
            assert(init[i] == cs[i]);
        }
        let last = cs[cs.len() - 1];
        assert(is_name(last));
        lemma_join_no_backslash(init);
        let ji = text::join_seq(init, "/"@);
        assert(j == ji + "/"@ + last);
        assert forall|i: int| 0 <= i < j.len() implies j[i] != '\\' by {
            if i < ji.len() {
                assert(j[i] == ji[i]);
            } else if i == ji.len() {
                assert(j[i] == '/');
            } else {
                assert(j[i] == last[i - ji.len() - 1]);
            }
        }
    }
}

/// `append_comps` with names: a separator if needed, then the names joined with `/`.
proof fn lemma_append_comps_join(x: Seq<char>, cs: Seq<Seq<char>>)
    requires
        cs.len() >= 1,
        all_names(cs),
    ensures
        append_comps(x, cs) == (if x.len() > 0 && x.last() == '/' { x } else { x.push('/') })
            + text::join_seq(cs, "/"@),
    decreases cs.len(),
{
    reveal_strlit("/");
    let sx = if x.len() > 0 && x.last() == '/' { x } else { x.push('/') };
    assert(is_name(cs[0]));
    assert(append_comps(x, cs) == append_comps(sx + cs[0], cs.drop_first()));
    if cs.len() == 1 {
        assert(cs.drop_first().len() == 0);
        assert(append_comps(sx + cs[0], cs.drop_first()) == sx + cs[0]);
        assert(text::join_seq(cs, "/"@) == cs[0]);
    } else {
        let rest = cs.drop_first();
        assert forall|i: int| 0 <= i < rest.len() implies is_name(#[trigger] rest[i]) by {
            assert(rest[i] == cs[i + 1]);
        }
        let y = sx + cs[0];
        lemma_append_comps_join(y, rest);
        assert(y.last() == cs[0].last());
        assert(cs[0].last() == cs[0][cs[0].len() - 1]);
        assert(cs[0][cs[0].len() - 1] != '/');
        crate::metadata::lemma_join_front(cs, "/"@);
        assert(y.push('/') + text::join_seq(rest, "/"@) =~= sx + (cs[0] + "/"@ + text::join_seq(rest, "/"@)));
    }
}

/// Splitting after a run of `../`.
proof fn lemma_split_ups(m: nat, j: Seq<char>)
    ensures
        split_char(ups(m) + j, '/') == dotdots(m) + split_char(j, '/'),
    decreases m,
{
    reveal_strlit("..");
    crate::asset_refs::lemma_ups_front(m);
    if m == 0 {
        assert(ups(m) + j =~= j);
        assert(dotdots(m) + split_char(j, '/') =~= split_char(j, '/'));
    } else {
        lemma_split_ups((m - 1) as nat, j);
        assert(ups(m) + j =~= ".."@ + seq!['/'] + (ups((m - 1) as nat) + j));
        lemma_split_sep(".."@, ups((m - 1) as nat) + j);
        lemma_split_plain(".."@);
        assert(seq![".."@] + dotdots((m - 1) as nat) =~= dotdots(m));
        assert(seq![".."@] + (dotdots((m - 1) as nat) + split_char(j, '/')) =~= dotdots(m) + split_char(j, '/'));
    }
}

/// Pieces that are not empty and not `.` are all kept.
proof fn lemma_comp_keep(ps: Seq<Seq<char>>, k: bool)
    requires
        forall|i: int| 0 <= i < ps.len() ==> (#[trigger] ps[i]).len() > 0 && ps[i] != "."@,
    ensures
        comp_pieces(ps, k) == ps,
    decreases ps.len(),
{
    if ps.len() > 0 {
        assert(ps[0].len() > 0 && ps[0] != "."@);
        lemma_comp_keep(ps.drop_first(), false);
        assert(seq![ps[0]] + ps.drop_first() =~= ps);
    }
}

/// A last empty piece is dropped.
proof fn lemma_comp_empty_last(ps: Seq<Seq<char>>, k: bool)
    ensures
        comp_pieces(ps + seq![Seq::<char>::empty()], k) == comp_pieces(ps, k),
    decreases ps.len(),
{
    let qs = ps + seq![Seq::<char>::empty()];
    if ps.len() == 0 {
        assert(qs[0] == Seq::<char>::empty());
        assert(qs.drop_first() =~= Seq::<Seq<char>>::empty());
        assert(comp_pieces(qs, k) == comp_pieces(qs.drop_first(), false));
        assert(comp_pieces(qs, k) == Seq::<Seq<char>>::empty());
    } else {
        assert(qs[0] == ps[0]);
        assert(qs.drop_first() =~= ps.drop_first() + seq![Seq::<char>::empty()]);
        lemma_comp_empty_last(ps.drop_first(), false);
        let r1 = comp_pieces(qs.drop_first(), false);
        let r2 = comp_pieces(ps.drop_first(), false);
        assert(r1 == r2);
        let p = ps[0];
        if p.len() == 0 || (p == "."@ && !k) {
            assert(comp_pieces(qs, k) == r1);
            assert(comp_pieces(ps, k) == r2);
        } else {
            assert(comp_pieces(qs, k) == seq![p] + r1);
            assert(comp_pieces(ps, k) == seq![p] + r2);
        }
    }
}

/// The components of `start` followed by the names `cs` (see `rel_path_spec`): `.` when
/// there is no `../`, the `..`s, then the names.
proof fn lemma_rel_components(m: nat, cs: Seq<Seq<char>>)
    requires
        all_names(cs),
    ensures
        ({
            let up = ups(m);
            let start = if up.len() == 0 { "./"@ } else { up };
            let s = append_comps(start, cs);
            &&& components(s) == (if m == 0 { seq!["."@] } else { seq![] }) + dotdots(m) + cs
            &&& !text::contains_seq(s, "\\"@)
        }),
{
    reveal_strlit("./");
    reveal_strlit("../");
    reveal_strlit(".");
    reveal_strlit("..");
    reveal_strlit("/");
    crate::asset_refs::lemma_ups_front(m);
    let up = ups(m);
    let start = if up.len() == 0 { "./"@ } else { up };
    let s = append_comps(start, cs);
    let head: Seq<Seq<char>> = if m == 0 { seq!["."@] } else { seq![] };
    assert(start.len() > 0 && start.last() == '/') by {
        if m > 0 {
            assert(up == ups((m - 1) as nat) + "../"@);
        }
    }
    assert(forall|i: int| 0 <= i < start.len() ==> start[i] != '\\') by {
        if m > 0 {
            assert forall|i: int| 0 <= i < start.len() implies start[i] != '\\' by {
                crate::asset_refs::lemma_ups_front(m);
                lemma_ups_chars(m, i);
            }
        }
    }
    // The pieces of `s` between slashes.
    let pieces: Seq<Seq<char>> = if cs.len() == 0 {
        head + dotdots(m) + seq![Seq::<char>::empty()]
    } else {
        head + dotdots(m) + cs
    };
    if cs.len() == 0 {
        assert(s == start);
        if m == 0 {
            assert(start =~= "."@ + seq!['/'] + Seq::<char>::empty());
            lemma_split_sep("."@, Seq::<char>::empty());
            lemma_split_plain("."@);
            lemma_split_plain(Seq::<char>::empty());
        } else {
            assert(start =~= ups(m) + Seq::<char>::empty());
            lemma_split_ups(m, Seq::<char>::empty());
            lemma_split_plain(Seq::<char>::empty());
            assert(head + dotdots(m) =~= dotdots(m));
        }
    } else {
        lemma_append_comps_join(start, cs);
        lemma_join_no_backslash(cs);
        let jn = text::join_seq(cs, "/"@);
        assert(s == start + jn);
        lemma_split_join(cs);
        if m == 0 {
            assert(s =~= "."@ + seq!['/'] + jn);
            lemma_split_sep("."@, jn);
            lemma_split_plain("."@);
        } else {
            lemma_split_ups(m, jn);
            assert(head + dotdots(m) =~= dotdots(m));
        }
        assert forall|i: int| 0 <= i < s.len() implies s[i] != '\\' by {
            if i >= start.len() {
                assert(s[i] == jn[i - start.len()]);
            }
        }
    }
    assert(split_char(s, '/') == pieces);
    reveal_strlit("\\");
    assert("\\"@ =~= seq!['\\']);
    assert forall|i: int| !text::occurs_at(s, "\\"@, i) by {
        text::lemma_occurs_char(s, '\\', i);
    }
    assert(!has_root(s)) by {
        assert(s[0] == start[0]) by {
            if cs.len() > 0 {
                assert(s == start + text::join_seq(cs, "/"@));
            }
        }
        if m > 0 {
            lemma_ups_chars(m, 0);
        }
    }
    assert(components(s) =~= comp_pieces(pieces, true));
    let body = dotdots(m) + cs;
    assert forall|i: int| 0 <= i < body.len() implies (#[trigger] body[i]).len() > 0 && body[i] != "."@ by {
        if i >= dotdots(m).len() {
            assert(body[i] == cs[i - m]);
            assert(is_name(cs[i - m]));
        } else {
            assert(body[i] == ".."@);
        }
    }
    lemma_comp_keep(body, m > 0);
    lemma_comp_keep(body, false);
    if m == 0 {
        if cs.len() == 0 {
            assert(pieces =~= seq!["."@] + seq![Seq::<char>::empty()]);
            assert(pieces.drop_first() =~= seq![Seq::<char>::empty()]);
            lemma_comp_empty_last(Seq::<Seq<char>>::empty(), false);
            assert(Seq::<Seq<char>>::empty() + seq![Seq::<char>::empty()] =~= seq![Seq::<char>::empty()]);
            assert(head + dotdots(m) + cs =~= seq!["."@]);
        } else {
            assert(pieces =~= seq!["."@] + body);
            assert(pieces.drop_first() =~= body);
            assert(head + dotdots(m) + cs =~= seq!["."@] + body);
        }
    } else {
        if cs.len() == 0 {
            assert(pieces =~= body + seq![Seq::<char>::empty()]);
            lemma_comp_empty_last(body, true);
            assert(head + dotdots(m) + cs =~= body);
        } else {
            assert(pieces =~= body);
            assert(head + dotdots(m) + cs =~= body);
        }
    }
}

/// The characters of a run of `../` are dots and slashes.
proof fn lemma_ups_chars(m: nat, i: int)
    requires
        0 <= i < ups(m).len(),
    ensures
        ups(m)[i] == '.' || ups(m)[i] == '/',
    decreases m,
{
    reveal_strlit("../");
    if m > 0 {
        crate::asset_refs::lemma_ups_front((m - 1) as nat);
        if i < ups((m - 1) as nat).len() {
            lemma_ups_chars((m - 1) as nat, i);
        }
    }
}

/// Following `..` `j` times and then plain names.
proof fn lemma_resolve_up_names(base: Seq<Seq<char>>, j: nat, ns: Seq<Seq<char>>)
    requires
        all_names(ns),
    ensures
        resolve(base, dotdots(j) + ns) == base.take(if j <= base.len() { base.len() - j } else { 0 }) + ns,
    decreases j, ns.len(),
{
    reveal_strlit(".");
    reveal_strlit("..");
    let rel = dotdots(j) + ns;
    if j > 0 {
        assert(rel[0] == ".."@);
        assert(".."@ != "."@) by {
            assert(".."@.len() != "."@.len());
        }
        assert(rel.drop_first() =~= dotdots((j - 1) as nat) + ns);
        let b2 = if base.len() > 0 { base.drop_last() } else { base };
        lemma_resolve_up_names(b2, (j - 1) as nat, ns);
        let l2 = if j - 1 <= b2.len() { b2.len() - (j - 1) } else { 0 };
        let l = if j <= base.len() { base.len() - j } else { 0 };
        assert(b2.take(l2) =~= base.take(l));
    } else if ns.len() > 0 {
        assert(rel =~= ns);
        assert(is_name(ns[0]));
        let rest = ns.drop_first();
        assert forall|i: int| 0 <= i < rest.len() implies is_name(#[trigger] rest[i]) by {
            assert(rest[i] == ns[i + 1]);
        }
        lemma_resolve_up_names(base.push(ns[0]), 0, rest);
        assert(dotdots(0) + rest =~= rest);
        assert(base.push(ns[0]).take(base.len() as int + 1) =~= base.push(ns[0]));
        assert(base.push(ns[0]) + rest =~= base.take(base.len() as int) + ns);
    } else {
        assert(rel.len() == 0);
        assert(base.take(base.len() as int) =~= base);
        assert(base + ns =~= base);
    }
}

/// The common prefix of two lists is shared, and no longer shared prefix exists.
proof fn lemma_common_prefix(a: Seq<Seq<char>>, b: Seq<Seq<char>>, l: nat)
    ensures
        common_prefix_len(a, b) <= a.len(),
        common_prefix_len(a, b) <= b.len(),
        a.take(common_prefix_len(a, b) as int) == b.take(common_prefix_len(a, b) as int),
        l <= a.len() && l <= b.len() && a.take(l as int) == b.take(l as int) ==> l <= common_prefix_len(a, b),
    decreases a.len(),
{
    if a.len() > 0 && b.len() > 0 && a[0] == b[0] {
        let l1: nat = if l > 0 { (l - 1) as nat } else { 0 };
        lemma_common_prefix(a.drop_first(), b.drop_first(), l1);
        let c1 = common_prefix_len(a.drop_first(), b.drop_first());
        assert(a.take(c1 as int + 1) =~= seq![a[0]] + a.drop_first().take(c1 as int));
        assert(b.take(c1 as int + 1) =~= seq![b[0]] + b.drop_first().take(c1 as int));
        if l > 0 && l <= a.len() && l <= b.len() && a.take(l as int) == b.take(l as int) {
            assert(a.drop_first().take(l1 as int) =~= a.take(l as int).drop_first());
            assert(b.drop_first().take(l1 as int) =~= b.take(l as int).drop_first());
        }
    } else {
        assert(a.take(0) =~= b.take(0));
        if l > 0 && l <= a.len() && l <= b.len() && a.take(l as int) == b.take(l as int) {
            assert(a.take(l as int)[0] == a[0]);
            assert(b.take(l as int)[0] == b[0]);
        }
    }
}

/// Following the computed relative path from the document's directory leads to the
/// target: its components are `.` (when no `../` is needed) or one `..` per directory
/// left after the common prefix, then the target's remaining components; for a target
/// of plain names.
pub proof fn law_rel_path_round_trip(content_dir: Seq<char>, collection: Seq<char>, file: Seq<char>, target: Seq<char>)
    requires
        all_names(components(target)),
    ensures
        ({
            let from = source_dirs(content_dir, collection, file);
            let to = components(target);
            let c = common_prefix_len(from, to);
            let m = (from.len() - c) as nat;
            &&& components(rel_path_spec(content_dir, collection, file, target)) == (if m == 0 {
                seq!["."@]
            } else {
                seq![]
            }) + dotdots(m) + to.skip(c as int)
            &&& resolve(from, components(rel_path_spec(content_dir, collection, file, target))) == to
        }),
{
    reveal_strlit("\\");
    reveal_strlit(".");
    let from = source_dirs(content_dir, collection, file);
    let to = components(target);
    lemma_common_prefix(from, to, 0);
    let c = common_prefix_len(from, to);
    let m = (from.len() - c) as nat;
    let rest = to.skip(c as int);
    assert forall|i: int| 0 <= i < rest.len() implies is_name(#[trigger] rest[i]) by {
        assert(rest[i] == to[i + c]);
    }
    lemma_rel_components(m, rest);
    let up = ups(m);
    let start = if up.len() == 0 { "./"@ } else { up };
    let s = append_comps(start, rest);
    text::lemma_replace_absent(s, "\\"@, "/"@);
    assert(rel_path_spec(content_dir, collection, file, target) == s);
    let rel = components(s);
    lemma_resolve_up_names(from, m, rest);
    if m == 0 {
        assert(rel[0] == "."@);
        assert(rel.drop_first() =~= dotdots(m) + rest);
    }
    assert(from.take(c as int) + rest =~= to.take(c as int) + rest);
    assert(to.take(c as int) + rest =~= to);
}

/// No relative path with fewer `..` reaches the target: a path of `j` times `..`
/// followed by plain names that leads from the document's directory to the target has
/// at least as many `..` as the computed one.
pub proof fn law_rel_path_fewest_ups(
    content_dir: Seq<char>,
    collection: Seq<char>,
    file: Seq<char>,
    target: Seq<char>,
    j: nat,
    names: Seq<Seq<char>>,
)
    requires
        all_names(names),
        resolve(source_dirs(content_dir, collection, file), dotdots(j) + names) == components(target),
    ensures
        j >= source_dirs(content_dir, collection, file).len() - common_prefix_len(
            source_dirs(content_dir, collection, file),
            components(target),
        ),
{
    let from = source_dirs(content_dir, collection, file);
    let to = components(target);
    lemma_resolve_up_names(from, j, names);
    if j <= from.len() {
        let l = (from.len() - j) as nat;
        let kept = from.take(l as int);
        assert(to.take(l as int) =~= kept);
        assert(from.take(l as int) =~= kept);
        lemma_common_prefix(from, to, l);
    }
}

} // verus!
