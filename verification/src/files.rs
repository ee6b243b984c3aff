//! Decisions behind the file list, tag cache, file creation and renaming; the disk
//! access itself stays with the caller.

use vstd::prelude::*;
use crate::content;
use crate::frontmatter;
use crate::models::FileEntry;
use crate::strset;
use crate::text;
use crate::text::{append_vec, chars_of, ends_with_vec, replace_vec, slice_vec, string_of};
use crate::yaml::YamlV;
use crate::yaml_io;
use crate::yaml_ops;

verus! {

/// The content of a file entry.
pub struct FileEntryV {
    pub name: Seq<char>,
    pub title: Seq<char>,
    pub date: Seq<char>,
    pub draft: bool,
    pub image: Option<Seq<char>>,
}

impl View for FileEntry {
    type V = FileEntryV;

    open spec fn view(&self) -> FileEntryV {
        FileEntryV {
            name: self.name@,
            title: self.title@,
            date: self.date@,
            draft: self.draft,
            image: match self.image {
                Some(s) => Some(s@),
                None => None,
            },
        }
    }
}

/// The contents of a list of file entries.
pub open spec fn entries_view(v: Seq<FileEntry>) -> Seq<FileEntryV> {
    v.map_values(|e: FileEntry| e@)
}

/// The text of the string under key `k`, if there is one.
pub open spec fn str_at(m: Seq<(YamlV, YamlV)>, k: Seq<char>) -> Option<Seq<char>> {
    match yaml_ops::map_get(m, k) {
        Some(v) => yaml_ops::as_str_v(v),
        None => None,
    }
}

/// The entry of a file whose frontmatter is `fm`: its `title` (or the file name), its
/// `date` (or `publishDate`, or nothing), whether it is a draft, and its `image`.
pub open spec fn entry_from_fm(name: Seq<char>, fm: Seq<(YamlV, YamlV)>) -> FileEntryV {
    FileEntryV {
        name,
        title: match str_at(fm, "title"@) {
            Some(t) => t,
            None => name,
        },
        date: match str_at(fm, "date"@) {
            Some(d) => d,
            None => match str_at(fm, "publishDate"@) {
                Some(d) => d,
                None => seq![],
            },
        },
        draft: frontmatter::is_draft_v(fm),
        image: str_at(fm, "image"@),
    }
}

/// An entry's title is the frontmatter's string `title` when it has one, and the file
/// name otherwise.
pub proof fn law_entry_title(name: Seq<char>, fm: Seq<(YamlV, YamlV)>)
    ensures
        str_at(fm, "title"@) is None ==> entry_from_fm(name, fm).title == name,
        str_at(fm, "title"@) matches Some(t) ==> entry_from_fm(name, fm).title == t,
        entry_from_fm(name, fm).name == name,
{
}

/// The list entry of the file at `rel_name` (relative to its collection) with content
/// `content` (`None` when it could not be read): the name with `\` turned into `/`,
/// and the metadata of its frontmatter when it opens with one that reads as a mapping.
pub open spec fn file_entry_spec(rel_name: Seq<char>, content: Option<Seq<char>>) -> FileEntryV {
    let name = text::replace_seq(rel_name, "\\"@, "/"@);
    let plain = FileEntryV { name, title: name, date: seq![], draft: false, image: None };
    match content {
        None => plain,
        Some(c) => match content::frontmatter_text_lenient(c) {
            None => plain,
            Some(y) => match yaml_io::yaml_parse_mapping(y) {
                None => plain,
                Some(fm) => entry_from_fm(name, fm),
            },
        },
    }
}

/// A file shown in a collection: its name ends with `.md` or `.mdx`.
pub open spec fn is_content_file_v(name: Seq<char>) -> bool {
    ".md"@.is_suffix_of(name) || ".mdx"@.is_suffix_of(name)
}

/// The text of the string under `key`.
fn str_at_exec(fm: &crate::yaml::YamlMapping, key: &str) -> (r: Option<String>)
    ensures
        match r {
            Some(s) => str_at(fm@, key@) == Some(s@),
            None => str_at(fm@, key@) is None,
        },
{
    match fm.get(key) {
        Some(v) => match v.as_str() {
            Some(s) => Some(s.clone()),
            None => None,
        },
        None => None,
    }
}

/// A file shown in a collection: its name ends with `.md` or `.mdx`.
pub fn is_content_file(name: &str) -> (r: bool)
    ensures
        r == is_content_file_v(name@),
{
    let n = chars_of(name);
    ends_with_vec(&n, &chars_of(".md")) || ends_with_vec(&n, &chars_of(".mdx"))
}

/// The list entry of a file (see `file_entry_spec`).
pub fn file_entry_for(rel_name: &str, content: Option<&str>) -> (r: FileEntry)
    ensures
        r@ == file_entry_spec(rel_name@, match content {
            Some(c) => Some(c@),
            None => None,
        }),
{
    proof {
        reveal_strlit("\\");
    }
    let name = string_of(&replace_vec(&chars_of(rel_name), &chars_of("\\"), &chars_of("/")));
    let plain = FileEntry { name: name.clone(), title: name.clone(), date: String::new(), draft: false, image: None };
    match content {
        None => plain,
        Some(c) => match content::frontmatter_text_lenient_exec(&chars_of(c)) {
            None => plain,
            Some(y) => match yaml_io::parse_yaml_mapping(string_of(&y).as_str()) {
                None => plain,
                Some(fm) => {
                    let title = match str_at_exec(&fm, "title") {
                        Some(t) => t,
                        None => name.clone(),
                    };
                    let date = match str_at_exec(&fm, "date") {
                        Some(d) => d,
                        None => match str_at_exec(&fm, "publishDate") {
                            Some(d) => d,
                            None => String::new(),
                        },
                    };
                    FileEntry {
                        name,
                        title,
                        date,
                        draft: frontmatter::is_draft(&fm),
                        image: str_at_exec(&fm, "image"),
                    }
                },
            },
        },
    }
}

/// A copy of a file entry.
pub fn copy_entry(e: &FileEntry) -> (r: FileEntry)
    ensures
        r@ == e@,
{
    FileEntry {
        name: e.name.clone(),
        title: e.title.clone(),
        date: e.date.clone(),
        draft: e.draft,
        image: match &e.image {
            Some(s) => Some(s.clone()),
            None => None,
        },
    }
}

/// `x` placed before the first entry whose date is below its own (after all entries
/// dated the same or later).
pub open spec fn insert_by_date(r: Seq<FileEntryV>, x: FileEntryV) -> Seq<FileEntryV>
    decreases r.len(),
{
    if r.len() == 0 {
        seq![x]
    } else if strset::lex_lt(r[0].date, x.date) {
        seq![x] + r
    } else {
        seq![r[0]] + insert_by_date(r.drop_first(), x)
    }
}

/// The entries ordered from the latest date to the earliest, entries with equal dates
/// keeping their order (the stable sort of `sort_by(|a, b| b.date.cmp(&a.date))`).
pub open spec fn sort_by_date_desc(s: Seq<FileEntryV>) -> Seq<FileEntryV>
    decreases s.len(),
{
    if s.len() == 0 {
        seq![]
    } else {
        insert_by_date(sort_by_date_desc(s.drop_last()), s.last())
    }
}

/// `insert_by_date` inserts at the first position whose date is below the new one.
pub proof fn lemma_insert_by_date_at(r: Seq<FileEntryV>, x: FileEntryV, k: int)
    requires
        0 <= k <= r.len(),
        forall|j: int| 0 <= j < k ==> !strset::lex_lt(#[trigger] r[j].date, x.date),
        k < r.len() ==> strset::lex_lt(r[k].date, x.date),
    ensures
        insert_by_date(r, x) == r.insert(k, x),
    decreases r.len(),
{
    if r.len() == 0 {
        assert(r.insert(k, x) =~= seq![x]);
    } else if k == 0 {
        assert(r.insert(0, x) =~= seq![x] + r);
    } else {
        let t = r.drop_first();
        assert forall|j: int| 0 <= j < k - 1 implies !strset::lex_lt(#[trigger] t[j].date, x.date) by {
            assert(t[j] == r[j + 1]);
        }
        lemma_insert_by_date_at(t, x, k - 1);
        assert(r.insert(k, x) =~= seq![r[0]] + t.insert(k - 1, x));
    }
}

/// Orders file entries from the latest date to the earliest; entries with equal dates
/// keep their order.
pub fn sort_entries_by_date(entries: &Vec<FileEntry>) -> (r: Vec<FileEntry>)
    ensures
        entries_view(r@) == sort_by_date_desc(entries_view(entries@)),
{
    let ghost ev = entries_view(entries@);
    let mut r: Vec<FileEntry> = Vec::new();
    let mut i: usize = 0;
    assert(entries_view(r@) =~= sort_by_date_desc(ev.take(0)));
    while i < entries.len()
        invariant
            i <= entries.len(),
            ev == entries_view(entries@),
            entries_view(r@) == sort_by_date_desc(ev.take(i as int)),
        decreases entries.len() - i,
    {
        assert(ev.take(i + 1).drop_last() =~= ev.take(i as int));
        assert(ev.take(i + 1).last() == entries@[i as int]@);
        let x = copy_entry(&entries[i]);
        let xd = chars_of(x.date.as_str());
        let ghost rv = entries_view(r@);
        let mut k: usize = 0;
        while k < r.len() && !strset::lex_lt_exec(&chars_of(r[k].date.as_str()), &xd)
            invariant
                k <= r.len(),
                rv == entries_view(r@),
                xd@ == x@.date,
                forall|j: int| 0 <= j < k ==> !strset::lex_lt(#[trigger] rv[j].date, x@.date),
            decreases r.len() - k,
        {
            k += 1;
        }
        proof {
            lemma_insert_by_date_at(rv, x@, k as int);
        }
        r.insert(k, x);
        assert(entries_view(r@) =~= rv.insert(k as int, entries@[i as int]@));
        i += 1;
    }
    assert(ev.take(entries.len() as int) =~= ev);
    r
}

} // verus!

verus! {

/// No entry is dated below a later one.
pub open spec fn sorted_by_date_desc(s: Seq<FileEntryV>) -> bool {
    forall|i: int, j: int| 0 <= i < j < s.len() ==> !strset::lex_lt(#[trigger] s[i].date, #[trigger] s[j].date)
}

/// Inserting adds exactly the new entry.
pub proof fn lemma_insert_by_date_multiset(r: Seq<FileEntryV>, x: FileEntryV)
    ensures
        insert_by_date(r, x).to_multiset() == r.to_multiset().insert(x),
    decreases r.len(),
{
    broadcast use vstd::multiset::group_multiset_axioms;
    broadcast use vstd::seq_lib::group_to_multiset_ensures;

    if r.len() == 0 {
        assert(seq![x] =~= Seq::<FileEntryV>::empty().push(x));
    } else {
        vstd::seq_lib::lemma_multiset_commutative(seq![x], r);
        assert(seq![x] =~= Seq::<FileEntryV>::empty().push(x));
        let t = r.drop_first();
        assert(r =~= seq![r[0]] + t);
        assert(seq![r[0]] =~= Seq::<FileEntryV>::empty().push(r[0]));
        vstd::seq_lib::lemma_multiset_commutative(seq![r[0]], t);
        if !strset::lex_lt(r[0].date, x.date) {
            lemma_insert_by_date_multiset(t, x);
            vstd::seq_lib::lemma_multiset_commutative(seq![r[0]], insert_by_date(t, x));
        }
        assert(insert_by_date(r, x).to_multiset() =~= r.to_multiset().insert(x));
    }
}

/// Inserting into a list sorted by date keeps it sorted.
pub proof fn lemma_insert_by_date_sorted(r: Seq<FileEntryV>, x: FileEntryV)
    requires
        sorted_by_date_desc(r),
    ensures
        sorted_by_date_desc(insert_by_date(r, x)),
    decreases r.len(),
{
    broadcast use vstd::seq_lib::group_to_multiset_ensures;

    if r.len() == 0 {
    } else if strset::lex_lt(r[0].date, x.date) {
        let s = seq![x] + r;
        assert forall|i: int, j: int| 0 <= i < j < s.len() implies !strset::lex_lt(#[trigger] s[i].date, #[trigger] s[j].date) by {
            if i == 0 {
                let y = r[j - 1];
                if strset::lex_lt(x.date, y.date) {
                    if j - 1 > 0 {
                        assert(!strset::lex_lt(r[0].date, y.date));
                        strset::lemma_lex_total(r[0].date, y.date);
                        if r[0].date != y.date {
                            strset::lemma_lex_trans(x.date, y.date, r[0].date);
                        }
                    }
                    strset::lemma_lex_asym(r[0].date, x.date);
                }
            }
        }
    } else {
        let t = r.drop_first();
        lemma_insert_by_date_sorted(t, x);
        lemma_insert_by_date_multiset(t, x);
        let u = insert_by_date(t, x);
        let s = seq![r[0]] + u;
        assert forall|i: int, j: int| 0 <= i < j < s.len() implies !strset::lex_lt(#[trigger] s[i].date, #[trigger] s[j].date) by {
            if i == 0 {
                let y = u[j - 1];
                assert(u.contains(y));
                assert(u.to_multiset().count(y) > 0);
                if y != x {
                    assert(t.to_multiset().count(y) > 0);
                    assert(t.contains(y));
                    let l = choose|l: int| 0 <= l < t.len() && t[l] == y;
                    assert(r[l + 1] == y);
                }
            } else {
                assert(s[i] == u[i - 1] && s[j] == u[j - 1]);
            }
        }
    }
}

/// The date order: after sorting, no entry is dated below a later one.
pub proof fn law_sort_by_date_sorted(s: Seq<FileEntryV>)
    ensures
        sorted_by_date_desc(sort_by_date_desc(s)),
    decreases s.len(),
{
    if s.len() > 0 {
        law_sort_by_date_sorted(s.drop_last());
        lemma_insert_by_date_sorted(sort_by_date_desc(s.drop_last()), s.last());
    }
}

/// Sorting keeps every entry, each as many times as before.
pub proof fn law_sort_by_date_permutation(s: Seq<FileEntryV>)
    ensures
        sort_by_date_desc(s).to_multiset() == s.to_multiset(),
    decreases s.len(),
{
    broadcast use vstd::seq_lib::group_to_multiset_ensures;

    if s.len() > 0 {
        law_sort_by_date_permutation(s.drop_last());
        lemma_insert_by_date_multiset(sort_by_date_desc(s.drop_last()), s.last());
        assert(s =~= s.drop_last().push(s.last()));
    } else {
        assert(s.to_multiset() =~= vstd::multiset::Multiset::empty()) by {
            broadcast use vstd::multiset::group_multiset_axioms;
        }
    }
}

} // verus!

verus! {

/// The tags of a file: the string items of the `tags` list of its frontmatter, when it
/// opens with a frontmatter that reads as a YAML mapping (tags are looked through).
pub open spec fn file_tags(c: Seq<char>) -> Set<Seq<char>> {
    match content::frontmatter_text_lenient(c) {
        None => Set::empty(),
        Some(y) => match yaml_io::yaml_parse_value(y) {
            None => Set::empty(),
            Some(v) => match yaml_ops::untag(v) {
                YamlV::Dict(m) => match yaml_ops::map_get(m, "tags"@) {
                    Some(t) => match yaml_ops::as_list_v(t) {
                        Some(items) => frontmatter::strs_of_items(items),
                        None => Set::empty(),
                    },
                    None => Set::empty(),
                },
                _ => Set::empty(),
            },
        },
    }
}

/// The tags of all the files.
pub open spec fn tags_union(cs: Seq<Seq<char>>) -> Set<Seq<char>>
    decreases cs.len(),
{
    if cs.len() == 0 {
        Set::empty()
    } else {
        tags_union(cs.drop_last()) + file_tags(cs.last())
    }
}

/// A file read for tags: `Path::extension` of its name is `md` or `mdx` (the name
/// ends with `.md` or `.mdx` after at least one other character).
pub open spec fn is_tag_source_v(file_name: Seq<char>) -> bool {
    (".md"@.is_suffix_of(file_name) && file_name.len() > 3) || (".mdx"@.is_suffix_of(file_name)
        && file_name.len() > 4)
}

/// A file read for tags (see `is_tag_source_v`).
pub fn is_tag_source(file_name: &str) -> (r: bool)
    ensures
        r == is_tag_source_v(file_name@),
{
    proof {
        reveal_strlit(".md");
        reveal_strlit(".mdx");
    }
    let n = chars_of(file_name);
    (ends_with_vec(&n, &chars_of(".md")) && n.len() > 3) || (ends_with_vec(&n, &chars_of(".mdx"))
        && n.len() > 4)
}

/// Adds the tags of one file to a sorted set.
pub fn add_file_tags(content: &str, acc: &mut Vec<Vec<char>>)
    requires
        strset::strictly_sorted(strset::views(old(acc)@)),
    ensures
        strset::strictly_sorted(strset::views(final(acc)@)),
        strset::views(final(acc)@).to_set() == strset::views(old(acc)@).to_set() + file_tags(content@),
{
    let ghost start = strset::views(acc@).to_set();
    match content::frontmatter_text_lenient_exec(&chars_of(content)) {
        None => {
            assert(start + Set::<Seq<char>>::empty() =~= start);
        },
        Some(y) => match yaml_io::parse_yaml_value(string_of(&y).as_str()) {
            None => {
                assert(start + Set::<Seq<char>>::empty() =~= start);
            },
            Some(v) => match untag_mapping(&v) {
                Some(m) => match m.get("tags") {
                    Some(t) => match t.as_sequence() {
                        Some(items) => frontmatter::add_item_strs(items, acc),
                        None => {
                            assert(start + Set::<Seq<char>>::empty() =~= start);
                        },
                    },
                    None => {
                        assert(start + Set::<Seq<char>>::empty() =~= start);
                    },
                },
                None => {
                    assert(start + Set::<Seq<char>>::empty() =~= start);
                },
            },
        },
    }
}

/// The mapping under any number of tags.
fn untag_mapping(v: &crate::yaml::YamlValue) -> (r: Option<&crate::yaml::YamlMapping>)
    ensures
        match r {
            Some(m) => yaml_ops::untag(v@) == YamlV::Dict(m@),
            None => !(yaml_ops::untag(v@) is Dict),
        },
    decreases v,
{
    match v {
        crate::yaml::YamlValue::Mapping(m) => Some(m),
        crate::yaml::YamlValue::Tagged(_, b) => untag_mapping(b),
        _ => None,
    }
}

/// The tag cache of a collection: every tag found in the files' contents, once each,
/// in increasing order.
pub fn collect_tags(contents: &Vec<String>) -> (r: Vec<String>)
    ensures
        crate::models::strs_view(r@) == strset::sorted_strs(tags_union(crate::models::strs_view(contents@))),
{
    let ghost cv = crate::models::strs_view(contents@);
    let mut acc: Vec<Vec<char>> = Vec::new();
    assert(strset::views(acc@) =~= Seq::<Seq<char>>::empty());
    assert(Seq::<Seq<char>>::empty().to_set() =~= tags_union(cv.take(0)));
    let mut i: usize = 0;
    while i < contents.len()
        invariant
            i <= contents.len(),
            cv == crate::models::strs_view(contents@),
            strset::strictly_sorted(strset::views(acc@)),
            strset::views(acc@).to_set() == tags_union(cv.take(i as int)),
        decreases contents.len() - i,
    {
        assert(cv.take(i + 1).drop_last() =~= cv.take(i as int));
        assert(cv.take(i + 1).last() == contents@[i as int]@);
        add_file_tags(contents[i].as_str(), &mut acc);
        i += 1;
    }
    assert(cv.take(contents.len() as int) =~= cv);
    proof {
        strset::lemma_is_sorted_strs(strset::views(acc@));
    }
    let mut r: Vec<String> = Vec::new();
    let mut k: usize = 0;
    while k < acc.len()
        invariant
            k <= acc.len(),
            r.len() == k,
            forall|j: int| 0 <= j < k ==> #[trigger] r@[j]@ == acc@[j]@,
        decreases acc.len() - k,
    {
        r.push(string_of(&acc[k]));
        k += 1;
    }
    assert(crate::models::strs_view(r@) =~= strset::views(acc@));
    r
}

} // verus!

verus! {

/// The file name for a new document typed as `input`: trimmed, with `.md` added
/// unless it already ends with `.md` or `.mdx`; none when nothing is left.
pub open spec fn new_file_name_spec(input: Seq<char>) -> Option<Seq<char>> {
    let t = text::trim_seq(input);
    if t.len() == 0 {
        None
    } else if ".md"@.is_suffix_of(t) || ".mdx"@.is_suffix_of(t) {
        Some(t)
    } else {
        Some(t + ".md"@)
    }
}

/// The file name for a new document (see `new_file_name_spec`), or the message for an
/// empty name.
pub fn new_file_name(input: &str) -> (r: Result<String, String>)
    ensures
        match r {
            Ok(n) => new_file_name_spec(input@) == Some(n@),
            Err(e) => new_file_name_spec(input@) is None && e@ == "Nombre de archivo vacío"@,
        },
{
    let t = crate::text::trim_vec(&chars_of(input));
    if t.len() == 0 {
        return Err(String::from_str("Nombre de archivo vacío"));
    }
    if ends_with_vec(&t, &chars_of(".md")) || ends_with_vec(&t, &chars_of(".mdx")) {
        Ok(string_of(&t))
    } else {
        let mut n = t;
        crate::text::append_vec(&mut n, &chars_of(".md"));
        Ok(string_of(&n))
    }
}

/// The message for a new document whose file already exists.
pub fn file_exists_message(file_name: &str) -> (r: String)
    ensures
        r@ == "El archivo "@ + file_name@ + " ya existe"@,
{
    let mut v = chars_of("El archivo ");
    crate::text::append_vec(&mut v, &chars_of(file_name));
    crate::text::append_vec(&mut v, &chars_of(" ya existe"));
    string_of(&v)
}

/// The message for a new document that could not be written, given the error's text.
pub fn create_error_message(error: &str) -> (r: String)
    ensures
        r@ == "Error al crear archivo: "@ + error@,
{
    let mut v = chars_of("Error al crear archivo: ");
    crate::text::append_vec(&mut v, &chars_of(error));
    string_of(&v)
}

/// The title of a new document: its file name with `.md`, then `.mdx`, removed
/// everywhere.
pub open spec fn new_file_title(file_name: Seq<char>) -> Seq<char> {
    text::replace_seq(text::replace_seq(file_name, ".md"@, seq![]), ".mdx"@, seq![])
}

/// The initial value of a field in a new document: the title for a text field named
/// `title`, the field's default otherwise.
pub open spec fn new_field_value(
    f: crate::models::FieldDefV,
    title: Seq<char>,
    now: Seq<char>,
    n: serde_yaml::Number,
) -> YamlV {
    if f.field_type == crate::models::FieldType::String && f.name == "title"@ {
        YamlV::Str(title)
    } else {
        frontmatter::field_default_v(f, now, n)
    }
}

/// The frontmatter of a new document: each field inserted in order with its initial
/// value; `ns[i]` is the number for the `i`-th field.
pub open spec fn new_file_frontmatter(
    fs: Seq<crate::models::FieldDefV>,
    title: Seq<char>,
    now: Seq<char>,
    ns: Seq<serde_yaml::Number>,
) -> Seq<(YamlV, YamlV)>
    decreases fs.len(),
{
    if fs.len() == 0 {
        seq![]
    } else {
        yaml_ops::map_insert(
            new_file_frontmatter(fs.drop_last(), title, now, ns.drop_last()),
            fs.last().name,
            new_field_value(fs.last(), title, now, ns.last()),
        )
    }
}

/// The initial text of a new document `file_name`: with a collection definition, its
/// fields as YAML frontmatter (nothing in between the fences when the mapping cannot
/// be written) and a placeholder body; without one, a title and publication date.
pub open spec fn initial_content_spec(
    file_name: Seq<char>,
    def: Option<crate::models::CollectionDefV>,
    now: Seq<char>,
    ns: Seq<serde_yaml::Number>,
) -> Seq<char> {
    let title = new_file_title(file_name);
    match def {
        Some(d) => "---\n"@ + match yaml_io::yaml_emit_mapping(new_file_frontmatter(d.fields, title, now, ns)) {
            Some(t) => t,
            None => seq![],
        } + "---\n\nEscribe aquí tu contenido..."@,
        None => "---\ntitle: \""@ + title + "\"\npublishDate: "@ + now + "\n---\n\nContenido..."@,
    }
}

/// The collection definition, if any, as its content.
pub open spec fn opt_def_view(def: Option<&crate::models::CollectionDef>) -> Option<crate::models::CollectionDefV> {
    match def {
        Some(d) => Some(d@),
        None => None,
    }
}

/// The initial text of a new document (see `initial_content_spec`); `now_iso` is the
/// current time and `number_defaults[i]` the number that the default of the `i`-th
/// field of `def` reads as.
pub fn initial_content_at(
    file_name: &str,
    def: Option<&crate::models::CollectionDef>,
    now_iso: &str,
    number_defaults: &Vec<serde_yaml::Number>,
) -> (r: String)
    requires
        def matches Some(d) ==> number_defaults.len() == d.fields.len(),
    ensures
        r@ == initial_content_spec(file_name@, opt_def_view(def), now_iso@, number_defaults@),
{
    proof {
        reveal_strlit(".md");
        reveal_strlit(".mdx");
        reveal_strlit("");
    }
    let a = replace_vec(&chars_of(file_name), &chars_of(".md"), &chars_of(""));
    let title = replace_vec(&a, &chars_of(".mdx"), &chars_of(""));
    assert(""@ =~= Seq::<char>::empty());
    match def {
        Some(d) => {
            let mut fm = crate::yaml::YamlMapping::new();
            let ghost fs = crate::models::fields_view(d.fields@);
            let title_s = string_of(&title);
            let mut i: usize = 0;
            while i < d.fields.len()
                invariant
                    i <= d.fields.len(),
                    number_defaults.len() == d.fields.len(),
                    fs == crate::models::fields_view(d.fields@),
                    title_s@ == new_file_title(file_name@),
                    fm@ == new_file_frontmatter(fs.take(i as int), title_s@, now_iso@, number_defaults@.take(i as int)),
                decreases d.fields.len() - i,
            {
                assert(fs.take(i + 1).drop_last() =~= fs.take(i as int));
                assert(number_defaults@.take(i + 1).drop_last() =~= number_defaults@.take(i as int));
                assert(fs.take(i + 1).last() == d.fields@[i as int]@);
                let f = &d.fields[i];
                let is_title = f.field_type == crate::models::FieldType::String && f.name == String::from_str("title");
                let v = if is_title {
                    crate::yaml::YamlValue::String(title_s.clone())
                } else {
                    frontmatter::field_default(f, now_iso, &number_defaults[i])
                };
                fm.insert(f.name.as_str(), v);
                i += 1;
            }
            assert(fs.take(d.fields.len() as int) =~= fs);
            assert(number_defaults@.take(d.fields.len() as int) =~= number_defaults@);
            let yaml_text = match yaml_io::emit_yaml_mapping(&fm) {
                Some(t) => chars_of(t.as_str()),
                None => Vec::new(),
            };
            let mut v = chars_of("---\n");
            crate::text::append_vec(&mut v, &yaml_text);
            crate::text::append_vec(&mut v, &chars_of("---\n\nEscribe aquí tu contenido..."));
            string_of(&v)
        },
        None => {
            let mut v = chars_of("---\ntitle: \"");
            crate::text::append_vec(&mut v, &title);
            crate::text::append_vec(&mut v, &chars_of("\"\npublishDate: "));
            crate::text::append_vec(&mut v, &chars_of(now_iso));
            crate::text::append_vec(&mut v, &chars_of("\n---\n\nContenido..."));
            string_of(&v)
        },
    }
}

/// The initial text of a new document at the current time: it is
/// `initial_content_spec` of some time text.
pub fn initial_content(
    file_name: &str,
    def: Option<&crate::models::CollectionDef>,
    number_defaults: &Vec<serde_yaml::Number>,
) -> (r: String)
    requires
        def matches Some(d) ==> number_defaults.len() == d.fields.len(),
    ensures
        exists|now: Seq<char>|
            crate::clock::is_timestamp(now) && r@ == #[trigger] initial_content_spec(
                file_name@,
                opt_def_view(def),
                now,
                number_defaults@,
            ),
{
    let now = crate::clock::now_iso();
    initial_content_at(file_name, def, now.as_str(), number_defaults)
}

} // verus!

verus! {

/// The path, relative to the repository, of an image copied into `assets_dir` under
/// `file_name` (with `\` written as `/`).
pub open spec fn asset_repo_path_spec(assets_dir: Seq<char>, file_name: Seq<char>) -> Seq<char> {
    text::replace_seq(assets_dir, "\\"@, "/"@) + "/"@ + file_name
}

/// The path of a copied image (see `asset_repo_path_spec`).
pub fn asset_repo_path(assets_dir: &str, file_name: &str) -> (r: String)
    ensures
        r@ == asset_repo_path_spec(assets_dir@, file_name@),
{
    proof {
        reveal_strlit("\\");
    }
    let mut v = replace_vec(&chars_of(assets_dir), &chars_of("\\"), &chars_of("/"));
    crate::text::append_vec(&mut v, &chars_of("/"));
    crate::text::append_vec(&mut v, &chars_of(file_name));
    string_of(&v)
}

/// An optional string as its characters.
pub open spec fn opt_string_view(o: Option<String>) -> Option<Seq<char>> {
    match o {
        Some(s) => Some(s@),
        None => None,
    }
}

/// The entries of the Markdown files among `found` (each a name relative to the
/// collection and the file's content, when it could be read), in the order found.
pub open spec fn content_entries(found: Seq<(String, Option<String>)>) -> Seq<FileEntryV>
    decreases found.len(),
{
    if found.len() == 0 {
        seq![]
    } else {
        let e = file_entry_spec(found.last().0@, opt_string_view(found.last().1));
        let prev = content_entries(found.drop_last());
        if is_content_file_v(e.name) {
            prev.push(e)
        } else {
            prev
        }
    }
}

/// The file list of a collection from the files found in it: the Markdown files'
/// entries, newest first.
pub fn scan_entries(found: &Vec<(String, Option<String>)>) -> (r: Vec<FileEntry>)
    ensures
        entries_view(r@) == sort_by_date_desc(content_entries(found@)),
{
    let mut v: Vec<FileEntry> = Vec::new();
    let mut i: usize = 0;
    while i < found.len()
        invariant
            i <= found.len(),
            entries_view(v@) == content_entries(found@.take(i as int)),
        decreases found.len() - i,
    {
        assert(found@.take(i + 1).drop_last() =~= found@.take(i as int));
        assert(found@.take(i + 1).last() == found@[i as int]);
        let e = match &found[i].1 {
            Some(c) => file_entry_for(found[i].0.as_str(), Some(c.as_str())),
            None => file_entry_for(found[i].0.as_str(), None),
        };
        if is_content_file(e.name.as_str()) {
            let ghost before = entries_view(v@);
            v.push(e);
            assert(entries_view(v@) =~= before.push(e@));
        }
        i += 1;
    }
    assert(found@.take(found.len() as int) =~= found@);
    sort_entries_by_date(&v)
}

/// The titles of a list of entries, in order (the category names offered for
/// categories fields).
pub fn entry_titles(entries: &Vec<FileEntry>) -> (r: Vec<String>)
    ensures
        r@.len() == entries@.len(),
        forall|i: int| 0 <= i < r@.len() ==> #[trigger] r@[i]@ == entries@[i].title@,
{
    let mut r: Vec<String> = Vec::new();
    let mut i: usize = 0;
    while i < entries.len()
        invariant
            i <= entries.len(),
            r@.len() == i,
            forall|j: int| 0 <= j < i ==> #[trigger] r@[j]@ == entries@[j].title@,
        decreases entries.len() - i,
    {
        r.push(entries[i].title.clone());
        i += 1;
    }
    r
}

/// A new document's file name is never empty and always ends with `.md` or `.mdx`.
pub proof fn law_new_file_name_is_markdown(input: Seq<char>)
    ensures
        new_file_name_spec(input) matches Some(n) ==> n.len() > 0 && (".md"@.is_suffix_of(n) || ".mdx"@.is_suffix_of(n)),
{
    reveal_strlit(".md");
    let t = text::trim_seq(input);
    if t.len() > 0 && !(".md"@.is_suffix_of(t) || ".mdx"@.is_suffix_of(t)) {
        let n = t + ".md"@;
        assert(n.skip(n.len() - 3) =~= ".md"@);
    }
}

/// The new name of a document converted to `.mdx`: the `.md` extension becomes `.mdx`
/// and the rest of the name stays; none unless the name ends with `.md`.
pub open spec fn mdx_name_spec(file: Seq<char>) -> Option<Seq<char>> {
    if ".md"@.is_suffix_of(file) {
        Some(file.take(file.len() - 3) + ".mdx"@)
    } else {
        None
    }
}

/// The new name of a document converted to `.mdx` (see `mdx_name_spec`).
pub fn mdx_name(file: &str) -> (r: Option<String>)
    ensures
        match r {
            Some(n) => mdx_name_spec(file@) == Some(n@),
            None => mdx_name_spec(file@) is None,
        },
{
    let f = chars_of(file);
    proof {
        reveal_strlit(".md");
    }
    if ends_with_vec(&f, &chars_of(".md")) {
        let mut n = slice_vec(&f, 0, f.len() - 3);
        append_vec(&mut n, &chars_of(".mdx"));
        assert(f@.subrange(0, f@.len() - 3) =~= f@.take(f@.len() - 3));
        Some(string_of(&n))
    } else {
        None
    }
}

/// A document converted to `.mdx` gets a name that ends with `.mdx`, and only its
/// extension changes: the name before `.md` is kept.
pub proof fn law_mdx_name_ends_with_mdx(file: Seq<char>)
    ensures
        mdx_name_spec(file) matches Some(n) ==> ".mdx"@.is_suffix_of(n) && n.take(n.len() - 4)
            == file.take(file.len() - 3),
{
    reveal_strlit(".md");
    reveal_strlit(".mdx");
    if ".md"@.is_suffix_of(file) {
        let n = file.take(file.len() - 3) + ".mdx"@;
        assert(n.skip(n.len() - 4) =~= ".mdx"@);
        assert(n.take(n.len() - 4) =~= file.take(file.len() - 3));
    }
}

/// A listed file's title is its name, unless its frontmatter reads as a mapping with a
/// string `title`, which is then the title.
pub proof fn law_file_entry_title(rel_name: Seq<char>, content: Option<Seq<char>>)
    ensures
        ({
            let e = file_entry_spec(rel_name, content);
            let parsed = match content {
                Some(c) => match content::frontmatter_text_lenient(c) {
                    Some(y) => yaml_io::yaml_parse_mapping(y),
                    None => None,
                },
                None => None,
            };
            let title = match parsed {
                Some(fm) => str_at(fm, "title"@),
                None => None,
            };
            &&& title matches Some(t) ==> e.title == t
            &&& title is None ==> e.title == e.name
        }),
{
    match content {
        Some(c) => match content::frontmatter_text_lenient(c) {
            Some(y) => match yaml_io::yaml_parse_mapping(y) {
                Some(fm) => {
                    law_entry_title(text::replace_seq(rel_name, "\\"@, "/"@), fm);
                },
                None => {},
            },
            None => {},
        },
        None => {},
    }
}

/// A new document's boolean field starts as true exactly when its default text is
/// `true`.
pub proof fn law_new_boolean_field(f: crate::models::FieldDefV, title: Seq<char>, now: Seq<char>, n: serde_yaml::Number)
    requires
        f.field_type == crate::models::FieldType::Boolean,
    ensures
        new_field_value(f, title, now, n) == YamlV::Bool(f.default_value == "true"@),
{
    frontmatter::law_boolean_default(f, now, n);
}

} // verus!
