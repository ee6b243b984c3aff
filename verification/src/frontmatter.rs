//! Frontmatter rules: merging legacy keys, deduplicating taxonomies and filling
//! the fields a collection requires.

use vstd::prelude::*;
use crate::strset;
use crate::strset::{insert_sorted, views};
use crate::text::{chars_of, string_of};
use crate::yaml;
use crate::yaml::{YamlMapping, YamlV, YamlValue};
use crate::yaml_ops;
use crate::yaml_ops::{map_get, map_insert, map_remove};

verus! {

broadcast use {yaml::lemma_items_view, yaml::lemma_entries_view};

/// The texts of the string items of a list (tags are looked through).
pub open spec fn strs_of_items(items: Seq<YamlV>) -> Set<Seq<char>> {
    Set::new(|s: Seq<char>| exists|i: int| 0 <= i < items.len() && yaml_ops::as_str_v(#[trigger] items[i]) == Some(s))
}

/// The texts of the string items when `v` is a list; empty otherwise.
pub open spec fn list_strs(v: Option<YamlV>) -> Set<Seq<char>> {
    match v {
        Some(YamlV::List(items)) => strs_of_items(items),
        _ => Set::empty(),
    }
}

/// A list of strings.
pub open spec fn str_list_v(ss: Seq<Seq<char>>) -> YamlV {
    YamlV::List(ss.map_values(|s: Seq<char>| YamlV::Str(s)))
}

/// A list holding the strings of a set once each, in increasing order.
pub open spec fn sorted_list_v(set: Set<Seq<char>>) -> YamlV {
    str_list_v(strset::sorted_strs(set))
}

/// `labels` merged into `tags`: a list of labels joins the strings of an existing
/// `tags` list, sorted and without repeats; a single label string replaces `tags` by a
/// one-item list; any other `labels` value is dropped. `labels` is removed.
pub open spec fn normalize_labels(m: Seq<(YamlV, YamlV)>) -> Seq<(YamlV, YamlV)> {
    match map_get(m, "labels"@) {
        None => m,
        Some(YamlV::List(items)) => map_remove(
            map_insert(m, "tags"@, sorted_list_v(strs_of_items(items) + list_strs(map_get(m, "tags"@)))),
            "labels"@,
        ),
        Some(YamlV::Str(s)) => map_remove(map_insert(m, "tags"@, YamlV::List(seq![YamlV::Str(s)])), "labels"@),
        Some(_) => map_remove(m, "labels"@),
    }
}

/// The category strings of a `category` value: itself when a string, its string items
/// when a list, none otherwise.
pub open spec fn category_strs(c: YamlV) -> Set<Seq<char>> {
    match c {
        YamlV::Str(s) => Set::empty().insert(s),
        YamlV::List(items) => strs_of_items(items),
        _ => Set::empty(),
    }
}

/// `category` merged into `categories` (sorted, without repeats, only when there is
/// at least one string); `category` is removed.
pub open spec fn normalize_category(m: Seq<(YamlV, YamlV)>) -> Seq<(YamlV, YamlV)> {
    match map_get(m, "category"@) {
        None => m,
        Some(c) => {
            let set = category_strs(c) + list_strs(map_get(m, "categories"@));
            let m2 = if set != Set::<Seq<char>>::empty() {
                map_insert(m, "categories"@, sorted_list_v(set))
            } else {
                m
            };
            map_remove(m2, "category"@)
        },
    }
}

/// A list under `k` reduced to its strings, sorted and without repeats.
pub open spec fn dedupe_key(m: Seq<(YamlV, YamlV)>, k: Seq<char>) -> Seq<(YamlV, YamlV)> {
    match map_get(m, k) {
        Some(YamlV::List(items)) => map_insert(m, k, sorted_list_v(strs_of_items(items))),
        _ => m,
    }
}

/// The normalized frontmatter: `labels` into `tags`, `category` into `categories`,
/// then `tags` and `categories` deduplicated.
pub open spec fn normalize_spec(m: Seq<(YamlV, YamlV)>) -> Seq<(YamlV, YamlV)> {
    dedupe_key(dedupe_key(normalize_category(normalize_labels(m)), "tags"@), "categories"@)
}

/// Adds the string items of a list to a sorted set of strings.
pub fn add_item_strs(items: &Vec<YamlValue>, acc: &mut Vec<Vec<char>>)
    requires
        strset::strictly_sorted(views(old(acc)@)),
    ensures
        strset::strictly_sorted(views(final(acc)@)),
        views(final(acc)@).to_set() == views(old(acc)@).to_set() + strs_of_items(yaml::items_view(items@)),
{
    let ghost start = views(acc@).to_set();
    let ghost iv = yaml::items_view(items@);
    let mut i: usize = 0;
    while i < items.len()
        invariant
            i <= items.len(),
            iv == yaml::items_view(items@),
            strset::strictly_sorted(views(acc@)),
            views(acc@).to_set() == start + strs_of_items(iv.take(i as int)),
        decreases items.len() - i,
    {
        let ghost before = views(acc@).to_set();
        let ghost extra = match yaml_ops::as_str_v(iv[i as int]) {
            Some(s) => Set::empty().insert(s),
            None => Set::empty(),
        };
        proof {
            yaml::lemma_items_view(items@);
        }
        assert(iv[i as int] == items@[i as int]@);
        match items[i].as_str() {
            Some(s) => {
                let c = chars_of(s.as_str());
                insert_sorted(acc, c);
                assert(views(acc@).to_set() =~= before + extra);
            },
            None => {
                assert(views(acc@).to_set() =~= before + extra);
            },
        }
        assert(strs_of_items(iv.take(i + 1)) =~= strs_of_items(iv.take(i as int)) + match yaml_ops::as_str_v(iv[i as int]) {
            Some(s) => Set::empty().insert(s),
            None => Set::empty(),
        }) by {
            assert forall|s: Seq<char>| #[trigger] strs_of_items(iv.take(i + 1)).contains(s) implies (strs_of_items(iv.take(i as int)).contains(s) || yaml_ops::as_str_v(iv[i as int]) == Some(s)) by {
                let k = choose|k: int| 0 <= k < iv.take(i + 1).len() && yaml_ops::as_str_v(#[trigger] iv.take(i + 1)[k]) == Some(s);
                if k < i {
                    assert(iv.take(i as int)[k] == iv.take(i + 1)[k]);
                }
            }
            assert forall|s: Seq<char>| #[trigger] strs_of_items(iv.take(i as int)).contains(s) implies strs_of_items(iv.take(i + 1)).contains(s) by {
                let k = choose|k: int| 0 <= k < iv.take(i as int).len() && yaml_ops::as_str_v(#[trigger] iv.take(i as int)[k]) == Some(s);
                assert(iv.take(i + 1)[k] == iv.take(i as int)[k]);
            }
            if yaml_ops::as_str_v(iv[i as int]) is Some {
                assert(iv.take(i + 1)[i as int] == iv[i as int]);
            }
        }
        assert(views(acc@).to_set() =~= start + strs_of_items(iv.take(i + 1)));
        i += 1;
    }
    assert(iv.take(items.len() as int) =~= iv);
}

/// A list of strings, in the order given.
pub fn str_list(ss: &Vec<Vec<char>>) -> (r: YamlValue)
    ensures
        r@ == str_list_v(views(ss@)),
{
    let mut out: Vec<YamlValue> = Vec::new();
    let mut i: usize = 0;
    while i < ss.len()
        invariant
            i <= ss.len(),
            out.len() == i,
            forall|j: int| 0 <= j < i ==> yaml::value_view(#[trigger] out@[j]) == YamlV::Str(ss@[j]@),
        decreases ss.len() - i,
    {
        out.push(YamlValue::String(string_of(&ss[i])));
        i += 1;
    }
    proof {
        yaml::lemma_items_view_ext(out@, views(ss@).map_values(|s: Seq<char>| YamlV::Str(s)));
    }
    YamlValue::Sequence(out)
}

/// The sorted list of the strings collected in a strictly sorted vector.
pub fn sorted_list(acc: &Vec<Vec<char>>) -> (r: YamlValue)
    requires
        strset::strictly_sorted(views(acc@)),
    ensures
        r@ == sorted_list_v(views(acc@).to_set()),
{
    proof {
        strset::lemma_is_sorted_strs(views(acc@));
    }
    str_list(acc)
}

/// Adds the string items of `v` to a sorted set when `v` is a list.
pub fn add_list_strs(v: Option<&YamlValue>, acc: &mut Vec<Vec<char>>)
    requires
        strset::strictly_sorted(views(old(acc)@)),
    ensures
        strset::strictly_sorted(views(final(acc)@)),
        views(final(acc)@).to_set() == views(old(acc)@).to_set() + list_strs(match v {
            Some(x) => Some(x@),
            None => None,
        }),
{
    match v {
        Some(YamlValue::Sequence(items)) => add_item_strs(items, acc),
        _ => {
            assert(views(acc@).to_set() + Set::<Seq<char>>::empty() =~= views(acc@).to_set());
        },
    }
}

/// Merges `labels` into `tags` (see `normalize_labels`).
pub fn normalize_labels_exec(fm: &mut YamlMapping)
    ensures
        final(fm)@ == normalize_labels(old(fm)@),
{
    let mut acc: Vec<Vec<char>> = Vec::new();
    assert(views(acc@) =~= Seq::<Seq<char>>::empty());
    let update: Option<Option<YamlValue>> = match fm.get("labels") {
        None => None,
        Some(YamlValue::Sequence(items)) => {
            add_item_strs(items, &mut acc);
            add_list_strs(fm.get("tags"), &mut acc);
            assert(Seq::<Seq<char>>::empty().to_set() =~= Set::<Seq<char>>::empty());
            assert(Set::<Seq<char>>::empty() + strs_of_items(yaml::items_view(items@)) =~= strs_of_items(yaml::items_view(items@)));
            Some(Some(sorted_list(&acc)))
        },
        Some(YamlValue::String(s)) => {
            let one = vec![YamlValue::String(s.clone())];
            proof {
                yaml::lemma_items_view_ext(one@, seq![YamlV::Str(s@)]);
            }
            Some(Some(YamlValue::Sequence(one)))
        },
        Some(_) => Some(None),
    };
    match update {
        None => {},
        Some(Some(v)) => {
            fm.insert("tags", v);
            fm.remove("labels");
        },
        Some(None) => {
            fm.remove("labels");
        },
    }
}

/// Merges `category` into `categories` (see `normalize_category`).
pub fn normalize_category_exec(fm: &mut YamlMapping)
    ensures
        final(fm)@ == normalize_category(old(fm)@),
{
    let mut acc: Vec<Vec<char>> = Vec::new();
    assert(views(acc@) =~= Seq::<Seq<char>>::empty());
    assert(Seq::<Seq<char>>::empty().to_set() =~= Set::<Seq<char>>::empty());
    let present = match fm.get("category") {
        None => false,
        Some(c) => {
            match c {
                YamlValue::String(s) => {
                    insert_sorted(&mut acc, chars_of(s.as_str()));
                    assert(Set::<Seq<char>>::empty().insert(s@) =~= category_strs(c@));
                },
                YamlValue::Sequence(items) => {
                    add_item_strs(items, &mut acc);
                    assert(Set::<Seq<char>>::empty() + strs_of_items(yaml::items_view(items@)) =~= category_strs(c@));
                },
                _ => {
                    assert(Set::<Seq<char>>::empty() =~= category_strs(c@));
                },
            }
            add_list_strs(fm.get("categories"), &mut acc);
            true
        },
    };
    if present {
        if acc.len() > 0 {
            proof {
                assert(views(acc@).to_set().contains(views(acc@)[0]));
            }
            let v = sorted_list(&acc);
            fm.insert("categories", v);
        } else {
            assert(views(acc@).to_set() =~= Set::<Seq<char>>::empty());
        }
        fm.remove("category");
    }
}

/// Reduces a list under `key` to its strings, sorted and without repeats.
pub fn dedupe_key_exec(fm: &mut YamlMapping, key: &str)
    ensures
        final(fm)@ == dedupe_key(old(fm)@, key@),
{
    let mut acc: Vec<Vec<char>> = Vec::new();
    assert(views(acc@) =~= Seq::<Seq<char>>::empty());
    assert(Seq::<Seq<char>>::empty().to_set() =~= Set::<Seq<char>>::empty());
    let found = match fm.get(key) {
        Some(YamlValue::Sequence(items)) => {
            add_item_strs(items, &mut acc);
            assert(Set::<Seq<char>>::empty() + strs_of_items(yaml::items_view(items@)) =~= strs_of_items(yaml::items_view(items@)));
            true
        },
        _ => false,
    };
    if found {
        let v = sorted_list(&acc);
        fm.insert(key, v);
    }
}

/// Normalizes a frontmatter: merges `labels` into `tags` and `category` into
/// `categories`, then keeps each of `tags` and `categories` as a sorted list of
/// distinct strings.
pub fn normalize_frontmatter(fm: &mut YamlMapping)
    ensures
        final(fm)@ == normalize_spec(old(fm)@),
{
    normalize_labels_exec(fm);
    normalize_category_exec(fm);
    dedupe_key_exec(fm, "tags");
    dedupe_key_exec(fm, "categories");
}

} // verus!

verus! {

/// `str::parse::<bool>().unwrap_or(false)`: only `true` reads as true.
pub open spec fn parse_bool_v(s: Seq<char>) -> bool {
    s == "true"@
}

/// The value a missing field takes: its default text for strings, its default parsed
/// as a boolean, the current time for a date whose default is `now` (its default text
/// otherwise), an empty list for lists and categories, null for images, and the given
/// number for numbers.
pub open spec fn field_default_v(f: crate::models::FieldDefV, now: Seq<char>, n: serde_yaml::Number) -> YamlV {
    match f.field_type {
        crate::models::FieldType::String => YamlV::Str(f.default_value),
        crate::models::FieldType::Boolean => YamlV::Bool(parse_bool_v(f.default_value)),
        crate::models::FieldType::Date => YamlV::Str(
            if f.default_value == "now"@ {
                now
            } else {
                f.default_value
            },
        ),
        crate::models::FieldType::List => YamlV::List(seq![]),
        crate::models::FieldType::Categories => YamlV::List(seq![]),
        crate::models::FieldType::Image => YamlV::Null,
        crate::models::FieldType::Number => YamlV::Num(n),
    }
}

/// The frontmatter with every field of `fs` that it lacks added (in order) with its
/// default value; `ns[i]` is the number for the `i`-th field.
pub open spec fn ensure_fields(
    m: Seq<(YamlV, YamlV)>,
    fs: Seq<crate::models::FieldDefV>,
    now: Seq<char>,
    ns: Seq<serde_yaml::Number>,
) -> Seq<(YamlV, YamlV)>
    decreases fs.len(),
{
    if fs.len() == 0 {
        m
    } else {
        let m1 = ensure_fields(m, fs.drop_last(), now, ns.drop_last());
        let f = fs.last();
        if yaml_ops::key_index(m1, f.name) is Some {
            m1
        } else {
            map_insert(m1, f.name, field_default_v(f, now, ns.last()))
        }
    }
}

/// The frontmatter marks the file as a draft (`draft: true`).
pub open spec fn is_draft_v(m: Seq<(YamlV, YamlV)>) -> bool {
    match map_get(m, "draft"@) {
        Some(v) => yaml_ops::as_bool_v(v) == Some(true),
        None => false,
    }
}

/// `str::parse::<bool>().unwrap_or(false)`.
pub fn parse_bool_or_false(s: &str) -> (r: bool)
    ensures
        r == parse_bool_v(s@),
        r <==> s@ == "true"@,
{
    let a = chars_of(s);
    let t = chars_of("true");
    crate::text::vec_eq(&a, &t)
}

/// A boolean field's default is true exactly when its default text is `true`: any
/// other text, `false` included, gives false.
pub proof fn law_boolean_default(f: crate::models::FieldDefV, now: Seq<char>, n: serde_yaml::Number)
    requires
        f.field_type == crate::models::FieldType::Boolean,
    ensures
        field_default_v(f, now, n) == YamlV::Bool(f.default_value == "true"@),
        f.default_value == "false"@ ==> field_default_v(f, now, n) == YamlV::Bool(false),
{
    reveal_strlit("true");
    reveal_strlit("false");
    if f.default_value == "false"@ {
        assert(f.default_value[0] != "true"@[0]);
    }
}

/// The default value of a field (see `field_default_v`).
pub fn field_default(f: &crate::models::FieldDef, now: &str, n: &serde_yaml::Number) -> (r: YamlValue)
    ensures
        r@ == field_default_v(f@, now@, *n),
{
    match f.field_type {
        crate::models::FieldType::String => YamlValue::String(f.default_value.clone()),
        crate::models::FieldType::Boolean => YamlValue::Bool(parse_bool_or_false(f.default_value.as_str())),
        crate::models::FieldType::Date => {
            let now_word = String::from_str("now");
            if f.default_value == now_word {
                YamlValue::String(String::from_str(now))
            } else {
                YamlValue::String(f.default_value.clone())
            }
        },
        crate::models::FieldType::List => {
            let v: Vec<YamlValue> = Vec::new();
            proof {
                yaml::lemma_items_view_ext(v@, seq![]);
            }
            YamlValue::Sequence(v)
        },
        crate::models::FieldType::Categories => {
            let v: Vec<YamlValue> = Vec::new();
            proof {
                yaml::lemma_items_view_ext(v@, seq![]);
            }
            YamlValue::Sequence(v)
        },
        crate::models::FieldType::Image => YamlValue::Null,
        crate::models::FieldType::Number => YamlValue::Number(yaml::clone_number(n)),
    }
}

/// Adds every field of `fields` that the frontmatter lacks, with its default value;
/// `now_iso` is the text of the current time and `number_defaults[i]` the number that
/// the default text of `fields[i]` reads as.
pub fn ensure_mandatory_fields_at(
    fm: &mut YamlMapping,
    fields: &Vec<crate::models::FieldDef>,
    now_iso: &str,
    number_defaults: &Vec<serde_yaml::Number>,
)
    requires
        number_defaults.len() == fields.len(),
    ensures
        final(fm)@ == ensure_fields(old(fm)@, crate::models::fields_view(fields@), now_iso@, number_defaults@),
{
    let ghost m0 = fm@;
    let ghost fs = crate::models::fields_view(fields@);
    let mut i: usize = 0;
    while i < fields.len()
        invariant
            i <= fields.len(),
            number_defaults.len() == fields.len(),
            fs == crate::models::fields_view(fields@),
            fm@ == ensure_fields(m0, fs.take(i as int), now_iso@, number_defaults@.take(i as int)),
        decreases fields.len() - i,
    {
        assert(fs.take(i + 1).drop_last() =~= fs.take(i as int));
        assert(number_defaults@.take(i + 1).drop_last() =~= number_defaults@.take(i as int));
        assert(fs.take(i + 1).last() == fields@[i as int]@);
        if !fm.contains_key(fields[i].name.as_str()) {
            let v = field_default(&fields[i], now_iso, &number_defaults[i]);
            fm.insert(fields[i].name.as_str(), v);
        }
        i += 1;
    }
    assert(fs.take(fields.len() as int) =~= fs);
    assert(number_defaults@.take(fields.len() as int) =~= number_defaults@);
}

/// The file is a draft: its `draft` value is the boolean `true`.
pub fn is_draft(fm: &YamlMapping) -> (r: bool)
    ensures
        r == is_draft_v(fm@),
{
    match fm.get("draft") {
        Some(v) => match v.as_bool() {
            Some(b) => b,
            None => false,
        },
        None => false,
    }
}

} // verus!

verus! {

/// The first collection from position `i` on named `name`.
pub open spec fn collection_named_from(cs: Seq<crate::models::CollectionDefV>, name: Seq<char>, i: int) -> Option<int>
    decreases cs.len() - i,
{
    if i < 0 || i >= cs.len() {
        None
    } else if cs[i].name == name {
        Some(i)
    } else {
        collection_named_from(cs, name, i + 1)
    }
}

/// The definition used for a collection: the first one with its name, else the first
/// one of all, else none.
pub open spec fn collection_index(cs: Seq<crate::models::CollectionDefV>, name: Seq<char>) -> Option<int> {
    match collection_named_from(cs, name, 0) {
        Some(i) => Some(i),
        None => if cs.len() > 0 {
            Some(0)
        } else {
            None
        },
    }
}

/// The position of the definition used for a collection (see `collection_index`).
pub fn collection_for(collections: &Vec<crate::models::CollectionDef>, name: &str) -> (r: Option<usize>)
    ensures
        match r {
            Some(i) => collection_index(crate::models::collections_view(collections@), name@) == Some(i as int)
                && i < collections.len(),
            None => collection_index(crate::models::collections_view(collections@), name@) is None,
        },
{
    let ghost cv = crate::models::collections_view(collections@);
    let mut i: usize = 0;
    while i < collections.len()
        invariant
            i <= collections.len(),
            cv == crate::models::collections_view(collections@),
            collection_named_from(cv, name@, 0) == collection_named_from(cv, name@, i as int),
        decreases collections.len() - i,
    {
        assert(cv[i as int] == collections@[i as int]@);
        if collections[i].name == String::from_str(name) {
            return Some(i);
        }
        i += 1;
    }
    if collections.len() > 0 {
        Some(0)
    } else {
        None
    }
}

/// The frontmatter after adding the missing fields of the definition used for
/// `collection` (unchanged when there is none), at time `now`.
pub open spec fn with_mandatory_fields(
    m: Seq<(YamlV, YamlV)>,
    cs: Seq<crate::models::CollectionDefV>,
    collection: Seq<char>,
    now: Seq<char>,
    ns: Seq<serde_yaml::Number>,
) -> Seq<(YamlV, YamlV)> {
    match collection_index(cs, collection) {
        Some(i) => ensure_fields(m, cs[i].fields, now, ns),
        None => m,
    }
}

/// The numbers fit the definition used for `collection`: one per field.
pub open spec fn numbers_fit(cs: Seq<crate::models::CollectionDefV>, collection: Seq<char>, n: nat) -> bool {
    match collection_index(cs, collection) {
        Some(i) => n == cs[i].fields.len(),
        None => true,
    }
}

/// Adds, at the current time, the missing fields of the definition used for
/// `collection` (see `with_mandatory_fields`); `number_defaults[i]` is the number that
/// the default of its `i`-th field reads as.
pub fn ensure_mandatory_fields(
    fm: &mut YamlMapping,
    collections: &Vec<crate::models::CollectionDef>,
    collection: &str,
    number_defaults: &Vec<serde_yaml::Number>,
)
    requires
        numbers_fit(crate::models::collections_view(collections@), collection@, number_defaults@.len()),
    ensures
        exists|now: Seq<char>|
            crate::clock::is_timestamp(now) && final(fm)@ == #[trigger] with_mandatory_fields(
                old(fm)@,
                crate::models::collections_view(collections@),
                collection@,
                now,
                number_defaults@,
            ),
{
    let ghost cv = crate::models::collections_view(collections@);
    let now = crate::clock::now_iso();
    match collection_for(collections, collection) {
        Some(i) => {
            assert(cv[i as int] == collections@[i as int]@);
            ensure_mandatory_fields_at(fm, &collections[i].fields, now.as_str(), number_defaults);
            assert(final(fm)@ == with_mandatory_fields(old(fm)@, cv, collection@, now@, number_defaults@));
        },
        None => {
            assert(final(fm)@ == with_mandatory_fields(old(fm)@, cv, collection@, now@, number_defaults@));
        },
    }
}

/// The frontmatter and body of a file as loaded into the editor at time `now`: parsed,
/// completed with the missing fields of its collection's definition (when a collection
/// is selected), and normalized.
pub open spec fn loaded_spec(
    content: Seq<char>,
    cs: Seq<crate::models::CollectionDefV>,
    collection: Option<Seq<char>>,
    now: Seq<char>,
    ns: Seq<serde_yaml::Number>,
) -> (Seq<(YamlV, YamlV)>, Seq<char>) {
    let (fm, body) = crate::content::parse_content_spec(content);
    let completed = match collection {
        Some(c) => with_mandatory_fields(fm, cs, c, now, ns),
        None => fm,
    };
    (normalize_spec(completed), body)
}

/// Loads a file's content into the editor (see `loaded_spec`).
pub fn load_document(
    content: &str,
    collections: &Vec<crate::models::CollectionDef>,
    collection: Option<&str>,
    number_defaults: &Vec<serde_yaml::Number>,
) -> (r: crate::content::ParsedContent)
    requires
        collection matches Some(c) ==> numbers_fit(
            crate::models::collections_view(collections@),
            c@,
            number_defaults@.len(),
        ),
    ensures
        yaml_ops::unique_keys(r.frontmatter@),
        exists|now: Seq<char>|
            (collection is Some ==> crate::clock::is_timestamp(now)) && (r.frontmatter@, r.body@)
                == #[trigger] loaded_spec(
                content@,
                crate::models::collections_view(collections@),
                crate::editor::opt_chars(collection),
                now,
                number_defaults@,
            ),
{
    let mut parsed = crate::content::parse_content(content);
    let ghost cv = crate::models::collections_view(collections@);
    let ghost fm0 = parsed.frontmatter@;
    let ghost copt = match collection {
        Some(c) => Some(c@),
        None => None,
    };
    match collection {
        Some(c) => {
            ensure_mandatory_fields(&mut parsed.frontmatter, collections, c, number_defaults);
            let ghost now = choose|now: Seq<char>|
                crate::clock::is_timestamp(now) && parsed.frontmatter@ == #[trigger] with_mandatory_fields(
                    fm0,
                    cv,
                    c@,
                    now,
                    number_defaults@,
                );
            proof {
                match collection_index(cv, c@) {
                    Some(i) => lemma_ensure_fields_unique(fm0, cv[i].fields, now, number_defaults@),
                    None => {},
                }
                law_normalized_shape(parsed.frontmatter@);
            }
            normalize_frontmatter(&mut parsed.frontmatter);
            assert((parsed.frontmatter@, parsed.body@) == loaded_spec(content@, cv, copt, now, number_defaults@));
        },
        None => {
            proof {
                law_normalized_shape(parsed.frontmatter@);
            }
            normalize_frontmatter(&mut parsed.frontmatter);
            assert((parsed.frontmatter@, parsed.body@) == loaded_spec(content@, cv, copt, seq![], number_defaults@));
        },
    }
    parsed
}

} // verus!

verus! {

/// Completing a frontmatter keeps its keys unique.
proof fn lemma_ensure_fields_unique(
    m: Seq<(YamlV, YamlV)>,
    fs: Seq<crate::models::FieldDefV>,
    now: Seq<char>,
    ns: Seq<serde_yaml::Number>,
)
    requires
        yaml_ops::unique_keys(m),
    ensures
        yaml_ops::unique_keys(ensure_fields(m, fs, now, ns)),
    decreases fs.len(),
{
    if fs.len() > 0 {
        lemma_ensure_fields_unique(m, fs.drop_last(), now, ns.drop_last());
        let m1 = ensure_fields(m, fs.drop_last(), now, ns.drop_last());
        let f = fs.last();
        yaml_ops::lemma_map_insert_unique(m1, f.name, field_default_v(f, now, ns.last()));
    }
}

/// After completing a frontmatter, every field of the definition has an entry, and
/// every key it already had keeps its value.
pub proof fn law_completed_fields(
    m: Seq<(YamlV, YamlV)>,
    fs: Seq<crate::models::FieldDefV>,
    now: Seq<char>,
    ns: Seq<serde_yaml::Number>,
)
    ensures
        forall|i: int| 0 <= i < fs.len() ==> #[trigger] map_get(ensure_fields(m, fs, now, ns), fs[i].name) is Some,
        forall|k: Seq<char>| #[trigger] map_get(m, k) is Some ==> map_get(ensure_fields(m, fs, now, ns), k) == map_get(m, k),
    decreases fs.len(),
{
    if fs.len() > 0 {
        let m1 = ensure_fields(m, fs.drop_last(), now, ns.drop_last());
        law_completed_fields(m, fs.drop_last(), now, ns.drop_last());
        let f = fs.last();
        yaml_ops::lemma_key_index(m1, f.name);
        assert forall|k: Seq<char>| #[trigger] map_get(m, k) is Some implies map_get(ensure_fields(m, fs, now, ns), k)
            == map_get(m, k) by {
            if yaml_ops::key_index(m1, f.name) is None {
                yaml_ops::lemma_map_insert_get(m1, f.name, field_default_v(f, now, ns.last()), k);
            }
        }
        assert forall|i: int| 0 <= i < fs.len() implies #[trigger] map_get(ensure_fields(m, fs, now, ns), fs[i].name) is Some by {
            if yaml_ops::key_index(m1, f.name) is None {
                yaml_ops::lemma_map_insert_get(m1, f.name, field_default_v(f, now, ns.last()), fs[i].name);
            }
            if i < fs.len() - 1 {
                assert(fs.drop_last()[i] == fs[i]);
            }
        }
    }
}

} // verus!

verus! {

/// The string items of a list, in order.
pub open spec fn str_items(items: Seq<YamlV>) -> Seq<Seq<char>>
    decreases items.len(),
{
    if items.len() == 0 {
        seq![]
    } else {
        match yaml_ops::as_str_v(items.last()) {
            Some(s) => str_items(items.drop_last()).push(s),
            None => str_items(items.drop_last()),
        }
    }
}

/// The strings of a list are those of `str_items`.
pub proof fn lemma_strs_of_items(items: Seq<YamlV>)
    ensures
        strs_of_items(items) == str_items(items).to_set(),
    decreases items.len(),
{
    if items.len() > 0 {
        let init = items.drop_last();
        lemma_strs_of_items(init);
        assert forall|s: Seq<char>| #[trigger] strs_of_items(items).contains(s) <==> str_items(items).to_set().contains(s) by {
            match yaml_ops::as_str_v(items.last()) {
                Some(t) => {
                    str_items(init).lemma_push_to_set_commute(t);
                },
                None => {},
            }
            if strs_of_items(items).contains(s) {
                let k = choose|k: int| 0 <= k < items.len() && yaml_ops::as_str_v(#[trigger] items[k]) == Some(s);
                if k < items.len() - 1 {
                    assert(init[k] == items[k]);
                    assert(strs_of_items(init).contains(s));
                }
            }
            if strs_of_items(init).contains(s) {
                let k = choose|k: int| 0 <= k < init.len() && yaml_ops::as_str_v(#[trigger] init[k]) == Some(s);
                assert(items[k] == init[k]);
            }
        }
        assert(strs_of_items(items) =~= str_items(items).to_set());
    }
}

/// A list of strings that is strictly sorted.
pub open spec fn is_sorted_str_list(v: YamlV) -> bool {
    exists|ss: Seq<Seq<char>>| strset::strictly_sorted(ss) && v == #[trigger] str_list_v(ss)
}

/// The sorted list made of a list's strings is a sorted string list, and it lists
/// exactly those strings.
pub proof fn lemma_sorted_list_of_items(items: Seq<YamlV>)
    ensures
        is_sorted_str_list(sorted_list_v(strs_of_items(items))),
        strset::strictly_sorted(strset::sorted_strs(strs_of_items(items))),
        strset::sorted_strs(strs_of_items(items)).to_set() == strs_of_items(items),
{
    lemma_strs_of_items(items);
    strset::lemma_sorted_strs_of_seq(str_items(items));
    let ss = strset::sorted_strs(strs_of_items(items));
    assert(str_list_v(ss) == sorted_list_v(strs_of_items(items)));
}

/// Reading the strings of a sorted string list and sorting them again gives the same
/// list.
pub proof fn lemma_sorted_list_fixed(ss: Seq<Seq<char>>)
    requires
        strset::strictly_sorted(ss),
    ensures
        sorted_list_v(strs_of_items(ss.map_values(|s: Seq<char>| YamlV::Str(s)))) == str_list_v(ss),
{
    let items = ss.map_values(|s: Seq<char>| YamlV::Str(s));
    assert(strs_of_items(items) =~= ss.to_set()) by {
        assert forall|s: Seq<char>| strs_of_items(items).contains(s) <==> ss.to_set().contains(s) by {
            if strs_of_items(items).contains(s) {
                let k = choose|k: int| 0 <= k < items.len() && yaml_ops::as_str_v(#[trigger] items[k]) == Some(s);
                assert(ss[k] == s);
            }
            if ss.to_set().contains(s) {
                let k = choose|k: int| 0 <= k < ss.len() && ss[k] == s;
                assert(yaml_ops::as_str_v(items[k]) == Some(s));
            }
        }
    }
    strset::lemma_is_sorted_strs(ss);
}

/// Deduplicating a key leaves it a sorted string list when it is a list, and leaves
/// every other key alone.
pub proof fn lemma_dedupe_key(m: Seq<(YamlV, YamlV)>, k: Seq<char>, k2: Seq<char>)
    ensures
        yaml_ops::unique_keys(m) ==> yaml_ops::unique_keys(dedupe_key(m, k)),
        k2 != k ==> map_get(dedupe_key(m, k), k2) == map_get(m, k2),
        map_get(dedupe_key(m, k), k) matches Some(YamlV::List(items)) ==> is_sorted_str_list(YamlV::List(items)),
        map_get(m, k) matches Some(v) ==> !(v is List) ==> dedupe_key(m, k) == m,
        map_get(m, k) is None ==> dedupe_key(m, k) == m,
{
    match map_get(m, k) {
        Some(YamlV::List(items)) => {
            let v = sorted_list_v(strs_of_items(items));
            yaml_ops::lemma_map_insert_unique(m, k, v);
            yaml_ops::lemma_map_insert_get(m, k, v, k2);
            yaml_ops::lemma_map_insert_get(m, k, v, k);
            lemma_sorted_list_of_items(items);
        },
        _ => {},
    }
}

/// After normalizing a frontmatter whose keys are unique, it has no `labels` and no
/// `category` entry, its keys are still unique, and `tags` and `categories`, when
/// they are lists, are lists of strings in increasing order without repeats.
pub proof fn law_normalized_shape(m: Seq<(YamlV, YamlV)>)
    requires
        yaml_ops::unique_keys(m),
    ensures
        yaml_ops::unique_keys(normalize_spec(m)),
        map_get(normalize_spec(m), "labels"@) is None,
        map_get(normalize_spec(m), "category"@) is None,
        map_get(normalize_spec(m), "tags"@) matches Some(YamlV::List(items)) ==> is_sorted_str_list(YamlV::List(items)),
        map_get(normalize_spec(m), "categories"@) matches Some(YamlV::List(items)) ==> is_sorted_str_list(
            YamlV::List(items),
        ),
{
    reveal_strlit("labels");
    reveal_strlit("tags");
    reveal_strlit("category");
    reveal_strlit("categories");
    assert("labels"@.len() == 6 && "tags"@.len() == 4 && "category"@.len() == 8 && "categories"@.len() == 10);
    assert("labels"@ != "tags"@);
    assert("category"@ != "categories"@);
    assert("labels"@ != "categories"@);
    assert("category"@ != "tags"@);
    assert("tags"@ != "categories"@);
    // labels into tags
    let m1 = normalize_labels(m);
    match map_get(m, "labels"@) {
        None => {},
        Some(YamlV::List(items)) => {
            let v = sorted_list_v(strs_of_items(items) + list_strs(map_get(m, "tags"@)));
            let mi = map_insert(m, "tags"@, v);
            yaml_ops::lemma_map_insert_unique(m, "tags"@, v);
            yaml_ops::lemma_map_remove(mi, "labels"@, "labels"@);
            yaml_ops::lemma_map_remove(mi, "labels"@, "category"@);
            yaml_ops::lemma_map_insert_get(m, "tags"@, v, "category"@);
        },
        Some(YamlV::Str(s)) => {
            let v = YamlV::List(seq![YamlV::Str(s)]);
            let mi = map_insert(m, "tags"@, v);
            yaml_ops::lemma_map_insert_unique(m, "tags"@, v);
            yaml_ops::lemma_map_remove(mi, "labels"@, "labels"@);
            yaml_ops::lemma_map_remove(mi, "labels"@, "category"@);
            yaml_ops::lemma_map_insert_get(m, "tags"@, v, "category"@);
        },
        Some(_) => {
            yaml_ops::lemma_map_remove(m, "labels"@, "labels"@);
            yaml_ops::lemma_map_remove(m, "labels"@, "category"@);
        },
    }
    assert(yaml_ops::unique_keys(m1));
    assert(map_get(m1, "labels"@) is None);
    // category into categories
    let m2 = normalize_category(m1);
    match map_get(m1, "category"@) {
        None => {},
        Some(c) => {
            let set = category_strs(c) + list_strs(map_get(m1, "categories"@));
            let v = sorted_list_v(set);
            let mi = if set != Set::<Seq<char>>::empty() {
                map_insert(m1, "categories"@, v)
            } else {
                m1
            };
            yaml_ops::lemma_map_insert_unique(m1, "categories"@, v);
            yaml_ops::lemma_map_insert_get(m1, "categories"@, v, "labels"@);
            yaml_ops::lemma_map_remove(mi, "category"@, "category"@);
            yaml_ops::lemma_map_remove(mi, "category"@, "labels"@);
        },
    }
    assert(yaml_ops::unique_keys(m2));
    assert(map_get(m2, "labels"@) is None);
    assert(map_get(m2, "category"@) is None);
    // deduplication
    let m3 = dedupe_key(m2, "tags"@);
    lemma_dedupe_key(m2, "tags"@, "labels"@);
    lemma_dedupe_key(m2, "tags"@, "category"@);
    lemma_dedupe_key(m2, "tags"@, "categories"@);
    let m4 = dedupe_key(m3, "categories"@);
    lemma_dedupe_key(m3, "categories"@, "labels"@);
    lemma_dedupe_key(m3, "categories"@, "category"@);
    lemma_dedupe_key(m3, "categories"@, "tags"@);
}

/// Normalizing a normalized frontmatter (with unique keys) changes nothing.
pub proof fn law_normalize_idempotent(m: Seq<(YamlV, YamlV)>)
    requires
        yaml_ops::unique_keys(m),
    ensures
        normalize_spec(normalize_spec(m)) == normalize_spec(m),
{
    let n = normalize_spec(m);
    law_normalized_shape(m);
    assert(normalize_labels(n) == n);
    assert(normalize_category(n) == n);
    reveal_strlit("tags");
    reveal_strlit("categories");
    assert("tags"@.len() == 4 && "categories"@.len() == 10);
    assert("tags"@ != "categories"@);
    match map_get(n, "tags"@) {
        Some(YamlV::List(items)) => {
            let ss = choose|ss: Seq<Seq<char>>| strset::strictly_sorted(ss) && YamlV::List(items) == #[trigger] str_list_v(ss);
            lemma_sorted_list_fixed(ss);
            yaml_ops::lemma_map_insert_unique(n, "tags"@, YamlV::List(items));
        },
        _ => {},
    }
    assert(dedupe_key(n, "tags"@) == n);
    match map_get(n, "categories"@) {
        Some(YamlV::List(items)) => {
            let ss = choose|ss: Seq<Seq<char>>| strset::strictly_sorted(ss) && YamlV::List(items) == #[trigger] str_list_v(ss);
            lemma_sorted_list_fixed(ss);
            yaml_ops::lemma_map_insert_unique(n, "categories"@, YamlV::List(items));
        },
        _ => {},
    }
    assert(dedupe_key(n, "categories"@) == n);
}

} // verus!

verus! {

/// The position of the first collection definition named `name`, if any (new
/// documents take the definition of their own collection only).
pub fn collection_named(collections: &Vec<crate::models::CollectionDef>, name: &str) -> (r: Option<usize>)
    ensures
        match r {
            Some(i) => collection_named_from(crate::models::collections_view(collections@), name@, 0) == Some(
                i as int,
            ) && i < collections.len(),
            None => collection_named_from(crate::models::collections_view(collections@), name@, 0) is None,
        },
{
    let ghost cv = crate::models::collections_view(collections@);
    let mut i: usize = 0;
    while i < collections.len()
        invariant
            i <= collections.len(),
            cv == crate::models::collections_view(collections@),
            collection_named_from(cv, name@, 0) == collection_named_from(cv, name@, i as int),
        decreases collections.len() - i,
    {
        assert(cv[i as int] == collections@[i as int]@);
        if collections[i].name == String::from_str(name) {
            return Some(i);
        }
        i += 1;
    }
    None
}

} // verus!
