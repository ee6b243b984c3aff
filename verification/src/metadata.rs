//! Editing the frontmatter from the metadata panel and the collection definitions
//! from the configuration dialog.

use vstd::prelude::*;
use crate::models::{strs_view, CollectionDef, CollectionDefV, FieldDef, FieldDefV, FieldType};
use crate::strset;
use crate::text;
use crate::text::{append_vec, chars_of, string_of, trim_vec, vec_eq};
use crate::yaml::{items_view, YamlV, YamlValue};
use crate::yaml_ops;

verus! {

broadcast use crate::yaml::lemma_items_view;

/// Some item of the list is the string `t`.
pub open spec fn has_str_item(items: Seq<YamlV>, t: Seq<char>) -> bool {
    exists|i: int| 0 <= i < items.len() && yaml_ops::as_str_v(#[trigger] items[i]) == Some(t)
}

/// The list with the string `t` added at the end, unless it already holds it.
pub open spec fn with_item(items: Seq<YamlV>, t: Seq<char>) -> Seq<YamlV> {
    if has_str_item(items, t) {
        items
    } else {
        items.push(YamlV::Str(t))
    }
}

/// Whether some item of the list is the string `t` (see `has_str_item`).
fn contains_str_item(items: &Vec<YamlValue>, t: &Vec<char>) -> (r: bool)
    ensures
        r == has_str_item(items_view(items@), t@),
{
    let ghost iv = items_view(items@);
    let mut i: usize = 0;
    while i < items.len()
        invariant
            i <= items.len(),
            iv == items_view(items@),
            forall|j: int| 0 <= j < i ==> yaml_ops::as_str_v(#[trigger] iv[j]) != Some(t@),
        decreases items.len() - i,
    {
        proof {
            crate::yaml::lemma_items_view(items@);
        }
        assert(iv[i as int] == items@[i as int]@);
        match items[i].as_str() {
            Some(s) => {
                if vec_eq(&chars_of(s.as_str()), t) {
                    return true;
                }
            },
            None => {},
        }
        i += 1;
    }
    false
}

/// Adds the string `t` to a list unless it already holds it (see `with_item`); used
/// when a category is picked from the offered ones.
pub fn add_choice(items: &mut Vec<YamlValue>, t: &str)
    ensures
        items_view(final(items)@) == with_item(items_view(old(items)@), t@),
{
    let tv = chars_of(t);
    if !contains_str_item(items, &tv) {
        let ghost before = items@;
        items.push(YamlValue::String(String::from_str(t)));
        proof {
            crate::yaml::lemma_items_view_ext(items@, items_view(before).push(YamlV::Str(t@)));
        }
    }
}

/// Adds the tag typed in `input` to a list: when the trimmed input is not empty it is
/// added (unless the list already holds it) and the input is cleared; otherwise
/// nothing changes.
pub fn add_tag(items: &mut Vec<YamlValue>, input: &mut String)
    ensures
        text::trim_seq(old(input)@).len() == 0 ==> final(items)@ == old(items)@ && final(input)@ == old(input)@,
        text::trim_seq(old(input)@).len() > 0 ==> items_view(final(items)@) == with_item(
            items_view(old(items)@),
            text::trim_seq(old(input)@),
        ) && final(input)@ == Seq::<char>::empty(),
{
    let t = trim_vec(&chars_of(input.as_str()));
    if t.len() > 0 {
        if !contains_str_item(items, &t) {
            let ghost before = items@;
            items.push(YamlValue::String(string_of(&t)));
            proof {
                crate::yaml::lemma_items_view_ext(items@, items_view(before).push(YamlV::Str(t@)));
            }
        }
        *input = String::new();
    }
}

/// The categories offered for a categories field: those of the site's `categories`
/// collection when there are any, the field's own options otherwise, sorted and each
/// once.
pub open spec fn category_choices_spec(all_categories: Seq<Seq<char>>, options: Option<Seq<Seq<char>>>) -> Seq<Seq<char>> {
    let base = if all_categories.len() > 0 {
        all_categories
    } else {
        match options {
            Some(o) => o,
            None => seq![],
        }
    };
    strset::sorted_strs(base.to_set())
}

/// The categories offered for a categories field (see `category_choices_spec`).
pub fn category_choices(all_categories: &Vec<String>, options: &Option<Vec<String>>) -> (r: Vec<String>)
    ensures
        strs_view(r@) == category_choices_spec(
            strs_view(all_categories@),
            match options {
                Some(o) => Some(strs_view(o@)),
                None => None,
            },
        ),
{
    let empty: Vec<String> = Vec::new();
    let base: &Vec<String> = if all_categories.len() > 0 {
        all_categories
    } else {
        match options {
            Some(o) => o,
            None => &empty,
        }
    };
    let ghost bv = strs_view(base@);
    assert(bv =~= (if all_categories.len() > 0 {
        strs_view(all_categories@)
    } else {
        match options {
            Some(o) => strs_view(o@),
            None => seq![],
        }
    }));
    let mut acc: Vec<Vec<char>> = Vec::new();
    assert(strset::views(acc@) =~= Seq::<Seq<char>>::empty());
    let mut i: usize = 0;
    while i < base.len()
        invariant
            i <= base.len(),
            bv == strs_view(base@),
            strset::strictly_sorted(strset::views(acc@)),
            strset::views(acc@).to_set() == bv.take(i as int).to_set(),
        decreases base.len() - i,
    {
        strset::insert_sorted(&mut acc, chars_of(base[i].as_str()));
        assert(bv.take(i + 1) =~= bv.take(i as int).push(bv[i as int]));
        proof {
            bv.take(i as int).lemma_push_to_set_commute(bv[i as int]);
        }
        assert(bv[i as int] == base@[i as int]@);
        i += 1;
    }
    assert(bv.take(base.len() as int) =~= bv);
    proof {
        strset::lemma_is_sorted_strs(strset::views(acc@));
    }
    let mut r: Vec<String> = Vec::new();
    let mut k: usize = 0;
    while k < acc.len()
        invariant
            k <= acc.len(),
            r.len() == k,
            forall|j: int| 0 <= j < k ==> #[trigger] r@[j]@ == acc@[j]@,
        decreases acc.len() - k,
    {
        r.push(string_of(&acc[k]));
        k += 1;
    }
    assert(strs_view(r@) =~= strset::views(acc@));
    r
}

/// The trimmed pieces that are not empty.
pub open spec fn nonempty_trimmed(ps: Seq<Seq<char>>) -> Seq<Seq<char>>
    decreases ps.len(),
{
    if ps.len() == 0 {
        seq![]
    } else if text::trim_seq(ps.last()).len() == 0 {
        nonempty_trimmed(ps.drop_last())
    } else {
        nonempty_trimmed(ps.drop_last()).push(text::trim_seq(ps.last()))
    }
}

/// The options typed as comma-separated text: each piece trimmed, empty ones dropped.
pub open spec fn options_from_text_spec(t: Seq<char>) -> Seq<Seq<char>> {
    nonempty_trimmed(crate::paths::split_char(t, ','))
}

/// The options typed as comma-separated text (see `options_from_text_spec`).
pub fn options_from_text(t: &str) -> (r: Vec<String>)
    ensures
        strs_view(r@) == options_from_text_spec(t@),
{
    let ps = crate::paths::split_char_vec(&chars_of(t), ',');
    let ghost pv = text::seqs_of(ps@);
    let mut r: Vec<String> = Vec::new();
    let mut i: usize = 0;
    while i < ps.len()
        invariant
            i <= ps.len(),
            pv == text::seqs_of(ps@),
            strs_view(r@) == nonempty_trimmed(pv.take(i as int)),
        decreases ps.len() - i,
    {
        assert(pv.take(i + 1).drop_last() =~= pv.take(i as int));
        assert(pv.take(i + 1).last() == ps@[i as int]@);
        let p = trim_vec(&ps[i]);
        if p.len() > 0 {
            let ghost before = strs_view(r@);
            r.push(string_of(&p));
            assert(strs_view(r@) =~= before.push(p@));
        }
        i += 1;
    }
    assert(pv.take(ps.len() as int) =~= pv);
    r
}

/// The options written as text, separated by `, `.
pub fn options_to_text(opts: &Vec<String>) -> (r: String)
    ensures
        r@ == text::join_seq(strs_view(opts@), ", "@),
{
    let mut parts: Vec<Vec<char>> = Vec::new();
    let mut i: usize = 0;
    while i < opts.len()
        invariant
            i <= opts.len(),
            parts.len() == i,
            forall|j: int| 0 <= j < i ==> #[trigger] parts@[j]@ == opts@[j]@,
        decreases opts.len() - i,
    {
        parts.push(chars_of(opts[i].as_str()));
        i += 1;
    }
    assert(text::seqs_of(parts@) =~= strs_view(opts@));
    string_of(&text::join_vec(&parts, &chars_of(", ")))
}

/// The field added by the configuration dialog.
pub open spec fn new_field_spec() -> FieldDefV {
    FieldDefV { name: "nuevo_campo"@, field_type: FieldType::String, default_value: seq![], options: None }
}

/// The field added by the configuration dialog: a text field `nuevo_campo` without
/// default or options.
pub fn new_field() -> (r: FieldDef)
    ensures
        r@ == new_field_spec(),
{
    proof {
        reveal_strlit("");
    }
    let r = FieldDef {
        name: String::from_str("nuevo_campo"),
        field_type: FieldType::String,
        default_value: String::from_str(""),
        options: None,
    };
    assert(r@.default_value =~= Seq::<char>::empty());
    r
}

/// The collection added by the configuration dialog: `nueva_coleccion`, without
/// fields.
pub fn new_collection() -> (r: CollectionDef)
    ensures
        r@ == (CollectionDefV { name: "nueva_coleccion"@, fields: seq![] }),
{
    let r = CollectionDef { name: String::from_str("nueva_coleccion"), fields: Vec::new() };
    assert(r@.fields =~= Seq::<FieldDefV>::empty());
    r
}

/// The fields shown first, in this order, in the "General" group.
pub open spec fn general_names() -> Seq<Seq<char>> {
    seq!["title"@, "description"@, "date"@, "publishDate"@, "draft"@]
}

/// The first field from position `i` on named `n`.
pub open spec fn first_named_from(fs: Seq<FieldDefV>, n: Seq<char>, i: int) -> Option<int>
    decreases fs.len() - i,
{
    if i < 0 || i >= fs.len() {
        None
    } else if fs[i].name == n {
        Some(i)
    } else {
        first_named_from(fs, n, i + 1)
    }
}

/// The positions of the general fields that the definition has (the first field of
/// each general name), in the order of `general_names`.
pub open spec fn general_fields(fs: Seq<FieldDefV>, k: nat) -> Seq<int>
    decreases k,
{
    if k == 0 {
        seq![]
    } else {
        let prev = general_fields(fs, (k - 1) as nat);
        match first_named_from(fs, general_names()[k - 1], 0) {
            Some(i) => prev.push(i),
            None => prev,
        }
    }
}

/// A field shown in the second group: its name is not a general one and no earlier
/// field has it.
pub open spec fn is_other_field(fs: Seq<FieldDefV>, i: int) -> bool {
    !general_names().contains(fs[i].name) && forall|j: int| 0 <= j < i ==> #[trigger] fs[j].name != fs[i].name
}

/// The positions of the fields shown in the second group, in definition order, among
/// the first `n`.
pub open spec fn other_fields(fs: Seq<FieldDefV>, n: nat) -> Seq<int>
    decreases n,
{
    if n == 0 {
        seq![]
    } else if is_other_field(fs, n - 1) {
        other_fields(fs, (n - 1) as nat).push(n - 1)
    } else {
        other_fields(fs, (n - 1) as nat)
    }
}

/// The first field from position `i` on named `n`.
fn first_named(fs: &Vec<FieldDef>, n: &Vec<char>) -> (r: Option<usize>)
    ensures
        match r {
            Some(i) => first_named_from(crate::models::fields_view(fs@), n@, 0) == Some(i as int),
            None => first_named_from(crate::models::fields_view(fs@), n@, 0) is None,
        },
{
    let ghost fv = crate::models::fields_view(fs@);
    let mut i: usize = 0;
    while i < fs.len()
        invariant
            i <= fs.len(),
            fv == crate::models::fields_view(fs@),
            first_named_from(fv, n@, 0) == first_named_from(fv, n@, i as int),
        decreases fs.len() - i,
    {
        assert(fv[i as int] == fs@[i as int]@);
        if vec_eq(&chars_of(fs[i].name.as_str()), n) {
            return Some(i);
        }
        i += 1;
    }
    None
}

/// The positions of the fields of the "General" group and of the second group of the
/// metadata panel (see `general_fields` and `other_fields`).
pub fn field_layout(fs: &Vec<FieldDef>) -> (r: (Vec<usize>, Vec<usize>))
    ensures
        r.0@.len() == general_fields(crate::models::fields_view(fs@), 5).len(),
        forall|i: int| 0 <= i < r.0@.len() ==> r.0@[i] == #[trigger] general_fields(crate::models::fields_view(fs@), 5)[i],
        r.1@.len() == other_fields(crate::models::fields_view(fs@), fs@.len()).len(),
        forall|i: int| 0 <= i < r.1@.len() ==> r.1@[i] == #[trigger] other_fields(crate::models::fields_view(fs@), fs@.len())[i],
{
    let ghost fv = crate::models::fields_view(fs@);
    let names = vec![chars_of("title"), chars_of("description"), chars_of("date"), chars_of("publishDate"), chars_of("draft")];
    assert(strset::views(names@) =~= general_names());
    let mut g: Vec<usize> = Vec::new();
    let mut k: usize = 0;
    while k < names.len()
        invariant
            k <= names.len(),
            names.len() == 5,
            strset::views(names@) == general_names(),
            fv == crate::models::fields_view(fs@),
            g@.len() == general_fields(fv, k as nat).len(),
            forall|i: int| 0 <= i < g@.len() ==> g@[i] == #[trigger] general_fields(fv, k as nat)[i],
        decreases names.len() - k,
    {
        assert(strset::views(names@)[k as int] == names@[k as int]@);
        match first_named(fs, &names[k]) {
            Some(i) => {
                g.push(i);
            },
            None => {},
        }
        k += 1;
    }
    let mut o: Vec<usize> = Vec::new();
    let mut i: usize = 0;
    while i < fs.len()
        invariant
            i <= fs.len(),
            names.len() == 5,
            strset::views(names@) == general_names(),
            fv == crate::models::fields_view(fs@),
            o@.len() == other_fields(fv, i as nat).len(),
            forall|j: int| 0 <= j < o@.len() ==> o@[j] == #[trigger] other_fields(fv, i as nat)[j],
        decreases fs.len() - i,
    {
        let name = chars_of(fs[i].name.as_str());
        assert(fv[i as int] == fs@[i as int]@);
        let mut general = false;
        let mut k2: usize = 0;
        while k2 < names.len()
            invariant
                k2 <= names.len(),
                strset::views(names@) == general_names(),
                general == exists|m: int| 0 <= m < k2 && #[trigger] general_names()[m] == name@,
            decreases names.len() - k2,
        {
            assert(strset::views(names@)[k2 as int] == names@[k2 as int]@);
            if vec_eq(&names[k2], &name) {
                general = true;
            }
            k2 += 1;
        }
        let mut seen = false;
        let mut j: usize = 0;
        while j < i
            invariant
                j <= i < fs.len(),
                fv == crate::models::fields_view(fs@),
                name@ == fv[i as int].name,
                seen == exists|m: int| 0 <= m < j && #[trigger] fv[m].name == fv[i as int].name,
            decreases i - j,
        {
            assert(fv[j as int] == fs@[j as int]@);
            assert(fv[j as int].name == fs@[j as int].name@);
            if vec_eq(&chars_of(fs[j].name.as_str()), &name) {
                seen = true;
            }
            j += 1;
        }
        proof {
            if general {
                let m = choose|m: int| 0 <= m < 5 && #[trigger] general_names()[m] == name@;
                assert(general_names().contains(fv[i as int].name));
            } else {
                assert(!general_names().contains(fv[i as int].name));
            }
        }
        if !general && !seen {
            o.push(i);
        }
        i += 1;
    }
    (g, o)
}

} // verus!

verus! {

/// A text without `c`, then `c`, then the rest, splits into that text and the pieces
/// of the rest.
pub proof fn lemma_split_after_first(x: Seq<char>, c: char, y: Seq<char>)
    requires
        forall|i: int| 0 <= i < x.len() ==> #[trigger] x[i] != c,
    ensures
        crate::paths::split_char(x + seq![c] + y, c) == seq![x] + crate::paths::split_char(y, c),
{
    let s = x + seq![c] + y;
    let k = x.len() as int;
    assert forall|j: int| 0 <= j < k implies s[j] != c by {
        assert(s[j] == x[j]);
    }
    text::lemma_find_char(s, c, k);
    assert(s.take(k) =~= x);
    assert(s.skip(k + 1) =~= y);
}

/// A text without `c` is a single piece.
pub proof fn lemma_split_none(x: Seq<char>, c: char)
    requires
        forall|i: int| 0 <= i < x.len() ==> #[trigger] x[i] != c,
    ensures
        crate::paths::split_char(x, c) == seq![x],
{
    text::lemma_find_char_none(x, c);
}

/// Joining from the front: the first part, the separator, then the rest joined.
pub proof fn lemma_join_front(parts: Seq<Seq<char>>, sep: Seq<char>)
    requires
        parts.len() >= 2,
    ensures
        text::join_seq(parts, sep) == parts[0] + sep + text::join_seq(parts.drop_first(), sep),
    decreases parts.len(),
{
    if parts.len() == 2 {
        assert(parts.drop_first().len() == 1);
        assert(parts.drop_last().len() == 1);
        assert(text::join_seq(parts.drop_last(), sep) == parts[0]);
        assert(text::join_seq(parts.drop_first(), sep) == parts[1]);
    } else {
        lemma_join_front(parts.drop_last(), sep);
        assert(parts.drop_last().drop_first() =~= parts.drop_first().drop_last());
        assert(parts.drop_first().last() == parts.last());
        assert(text::join_seq(parts.drop_first(), sep) == text::join_seq(parts.drop_first().drop_last(), sep) + sep
            + parts.drop_first().last());
    }
}

/// The options as they may be typed back: trimmed, not empty, without commas.
pub open spec fn plain_option(o: Seq<char>) -> bool {
    o.len() > 0 && text::trim_seq(o) == o && forall|i: int| 0 <= i < o.len() ==> #[trigger] o[i] != ','
}

/// The pieces of ` a, b, ...` (the options after the first, with their separators'
/// spaces).
proof fn lemma_split_spaced(qs: Seq<Seq<char>>)
    requires
        qs.len() >= 1,
        forall|i: int| 0 <= i < qs.len() ==> plain_option(#[trigger] qs[i]),
    ensures
        crate::paths::split_char(" "@ + text::join_seq(qs, ", "@), ',') == qs.map_values(|q: Seq<char>| " "@ + q),
    decreases qs.len(),
{
    reveal_strlit(" ");
    reveal_strlit(", ");
    let sp = " "@;
    if qs.len() == 1 {
        assert(text::join_seq(qs, ", "@) == qs[0]);
        let x = sp + qs[0];
        assert(plain_option(qs[0]));
        assert forall|i: int| 0 <= i < x.len() implies #[trigger] x[i] != ',' by {
            if i > 0 {
                assert(x[i] == qs[0][i - 1]);
            }
        }
        lemma_split_none(x, ',');
        assert(qs.map_values(|q: Seq<char>| " "@ + q) =~= seq![x]);
    } else {
        lemma_join_front(qs, ", "@);
        let rest = qs.drop_first();
        assert forall|i: int| 0 <= i < rest.len() implies plain_option(#[trigger] rest[i]) by {
            assert(rest[i] == qs[i + 1]);
        }
        lemma_split_spaced(rest);
        let x = sp + qs[0];
        assert(plain_option(qs[0]));
        assert forall|i: int| 0 <= i < x.len() implies #[trigger] x[i] != ',' by {
            if i > 0 {
                assert(x[i] == qs[0][i - 1]);
            }
        }
        assert(sp + text::join_seq(qs, ", "@) =~= x + seq![','] + (sp + text::join_seq(rest, ", "@)));
        lemma_split_after_first(x, ',', sp + text::join_seq(rest, ", "@));
        assert(qs.map_values(|q: Seq<char>| " "@ + q) =~= seq![x] + rest.map_values(|q: Seq<char>| " "@ + q));
    }
}

/// `nonempty_trimmed` of pieces that each trim to a non-empty option gives those
/// options.
proof fn lemma_nonempty_trimmed_all(xs: Seq<Seq<char>>, ys: Seq<Seq<char>>)
    requires
        xs.len() == ys.len(),
        forall|i: int| 0 <= i < xs.len() ==> text::trim_seq(#[trigger] xs[i]) == ys[i] && ys[i].len() > 0,
    ensures
        nonempty_trimmed(xs) == ys,
    decreases xs.len(),
{
    if xs.len() > 0 {
        assert forall|i: int| 0 <= i < xs.drop_last().len() implies text::trim_seq(#[trigger] xs.drop_last()[i])
            == ys.drop_last()[i] && ys.drop_last()[i].len() > 0 by {
            assert(xs.drop_last()[i] == xs[i]);
        }
        lemma_nonempty_trimmed_all(xs.drop_last(), ys.drop_last());
        assert(text::trim_seq(xs.last()) == ys.last());
        assert(ys.drop_last().push(ys.last()) =~= ys);
    }
}

/// A leading space goes away when trimming a trimmed text.
proof fn lemma_trim_spaced(q: Seq<char>)
    requires
        text::trim_seq(q) == q,
        q.len() > 0,
    ensures
        text::trim_seq(" "@ + q) == q,
{
    reveal_strlit(" ");
    let x = " "@ + q;
    assert(text::is_ws(x[0]));
    assert(x.drop_first() =~= q);
    assert(text::trim_start_seq(x) == text::trim_start_seq(q));
    // `q` starts and ends without whitespace, as it is its own trim.
    text::lemma_trim_start_idempotent(q);
}

/// Writing options as comma-separated text and reading the text back gives the same
/// options, when each is trimmed, not empty and free of commas.
pub proof fn law_options_round_trip(opts: Seq<Seq<char>>)
    requires
        forall|i: int| 0 <= i < opts.len() ==> plain_option(#[trigger] opts[i]),
    ensures
        options_from_text_spec(text::join_seq(opts, ", "@)) == opts,
{
    reveal_strlit(", ");
    reveal_strlit(" ");
    if opts.len() == 0 {
        assert(opts =~= Seq::<Seq<char>>::empty());
        lemma_split_none(seq![], ',');
        assert(crate::paths::split_char(Seq::<char>::empty(), ',') == seq![Seq::<char>::empty()]);
        assert(text::trim_seq(Seq::<char>::empty()).len() == 0);
        assert(seq![Seq::<char>::empty()].drop_last() =~= Seq::<Seq<char>>::empty());
        assert(text::join_seq(opts, ", "@) == Seq::<char>::empty());
        assert(nonempty_trimmed(seq![Seq::<char>::empty()]) == nonempty_trimmed(Seq::<Seq<char>>::empty()));
    } else if opts.len() == 1 {
        assert(text::join_seq(opts, ", "@) == opts[0]);
        assert(plain_option(opts[0]));
        lemma_split_none(opts[0], ',');
        lemma_nonempty_trimmed_all(seq![opts[0]], opts);
        assert(options_from_text_spec(text::join_seq(opts, ", "@)) == opts);
    } else {
        lemma_join_front(opts, ", "@);
        let rest = opts.drop_first();
        assert forall|i: int| 0 <= i < rest.len() implies plain_option(#[trigger] rest[i]) by {
            assert(rest[i] == opts[i + 1]);
        }
        lemma_split_spaced(rest);
        assert(plain_option(opts[0]));
        assert(text::join_seq(opts, ", "@) =~= opts[0] + seq![','] + (" "@ + text::join_seq(rest, ", "@)));
        lemma_split_after_first(opts[0], ',', " "@ + text::join_seq(rest, ", "@));
        let pieces = seq![opts[0]] + rest.map_values(|q: Seq<char>| " "@ + q);
        assert forall|i: int| 0 <= i < pieces.len() implies text::trim_seq(#[trigger] pieces[i]) == opts[i]
            && opts[i].len() > 0 by {
            assert(plain_option(opts[i]));
            if i > 0 {
                assert(pieces[i] == " "@ + rest[i - 1]);
                assert(rest[i - 1] == opts[i]);
                lemma_trim_spaced(opts[i]);
            }
        }
        lemma_nonempty_trimmed_all(pieces, opts);
        assert(crate::paths::split_char(text::join_seq(opts, ", "@), ',') == pieces);
        assert(options_from_text_spec(text::join_seq(opts, ", "@)) == opts);
    }
}

} // verus!
