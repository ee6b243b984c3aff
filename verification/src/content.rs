//! Parsing and shaping of MDX/Markdown content: frontmatter split, tag
//! attributes, relative paths and preview cleanup.

use vstd::prelude::*;
use crate::text;
use crate::text::{
    append_vec, chars_of, find_vec, join_vec, lines_vec, replace_vec, slice_vec, starts_with_vec,
    string_of, trim_start_vec, trim_vec,
};
use crate::yaml;
use crate::yaml::{YamlMapping, YamlV};
use crate::yaml_ops;
use crate::yaml_io;
use crate::yaml_io::{emit_yaml_mapping, parse_yaml_mapping};

verus! {

/// The value of `attr="..."` in `tag`: the text between the first `attr="` and the
/// next double quote after it.
pub open spec fn extract_attr_spec(tag: Seq<char>, attr: Seq<char>) -> Option<Seq<char>> {
    let pat = attr + seq!['=', '"'];
    match text::find_seq(tag, pat) {
        None => None,
        Some(st) => {
            let rest = tag.skip(st + pat.len());
            match text::find_seq(rest, seq!['"']) {
                None => None,
                Some(e) => Some(rest.take(e)),
            }
        },
    }
}

/// Extracts the value of an attribute from an HTML/XML tag: the text of the first
/// `attr="value"` occurrence, or `None` when there is none or its quote is not closed.
pub fn extract_attr(tag: &str, attr: &str) -> (r: Option<String>)
    ensures
        match r {
            Some(v) => extract_attr_spec(tag@, attr@) == Some(v@),
            None => extract_attr_spec(tag@, attr@) is None,
        },
{
    let t = chars_of(tag);
    let mut pat = chars_of(attr);
    pat.push('=');
    pat.push('"');
    assert(pat@ =~= attr@ + seq!['=', '"']);
    match find_vec(&t, &pat) {
        None => None,
        Some(st) => {
            proof {
                text::lemma_find_seq(t@, pat@);
                assert(text::occurs_at(t@, pat@, st as int));
                assert(st + pat@.len() <= t@.len());
            }
            assert(st + pat.len() <= t.len());
            let rest = slice_vec(&t, st + pat.len(), t.len());
            assert(rest@ =~= t@.skip(st + pat@.len()));
            let quote = vec!['"'];
            assert(quote@ =~= seq!['"']);
            match find_vec(&rest, &quote) {
                None => None,
                Some(e) => {
                    proof {
                        text::lemma_find_seq(rest@, quote@);
                    }
                    let v = slice_vec(&rest, 0, e);
                    assert(v@ =~= rest@.take(e as int));
                    Some(string_of(&v))
                },
            }
        },
    }
}

/// A line that starts, after trimming, with `import `.
pub open spec fn is_import_line(l: Seq<char>) -> bool {
    "import "@.is_prefix_of(text::trim_seq(l))
}

/// The lines that are not import lines, in order.
pub open spec fn without_import_lines(ls: Seq<Seq<char>>) -> Seq<Seq<char>>
    decreases ls.len(),
{
    if ls.len() == 0 {
        seq![]
    } else if is_import_line(ls.last()) {
        without_import_lines(ls.drop_last())
    } else {
        without_import_lines(ls.drop_last()).push(ls.last())
    }
}

/// Placeholder shown in the preview in place of `<CTABox`.
pub open spec fn cta_placeholder() -> Seq<char> {
    "\n--- \n> \u{1F4E2} **ANUNCIO (CTA)**\n"@
}

/// Placeholder shown in the preview in place of `<Image`.
pub open spec fn image_placeholder() -> Seq<char> {
    "\n--- \n> \u{1F5BC} **IMAGEN DE ASTRO**\n"@
}

/// Placeholder shown in the preview in place of `/>`.
pub open spec fn close_placeholder() -> Seq<char> {
    "\n--- \n"@
}

/// The preview text: import lines dropped, the remaining lines joined with `\n`, then
/// `<CTABox`, `<Image` and `/>` replaced by their placeholders, in that order.
pub open spec fn clean_imports_spec(text: Seq<char>) -> Seq<char> {
    let kept = text::join_seq(without_import_lines(text::lines_seq(text)), "\n"@);
    text::replace_seq(
        text::replace_seq(text::replace_seq(kept, "<CTABox"@, cta_placeholder()), "<Image"@, image_placeholder()),
        "/>"@,
        close_placeholder(),
    )
}

/// Cleans a text for the preview: removes import lines and replaces Astro components
/// that have no native rendering by placeholders.
pub fn clean_imports_for_preview(text: &str) -> (r: String)
    ensures
        r@ == clean_imports_spec(text@),
{
    let t = chars_of(text);
    let ls = lines_vec(&t);
    let import_kw = chars_of("import ");
    let mut kept: Vec<Vec<char>> = Vec::new();
    let mut i: usize = 0;
    while i < ls.len()
        invariant
            i <= ls.len(),
            import_kw@ == "import "@,
            text::seqs_of(kept@) == without_import_lines(text::seqs_of(ls@).take(i as int)),
        decreases ls.len() - i,
    {
        let ghost lv = text::seqs_of(ls@);
        assert(lv.take(i + 1).drop_last() =~= lv.take(i as int));
        assert(lv.take(i + 1).last() == ls@[i as int]@);
        let trimmed = trim_vec(&ls[i]);
        if !starts_with_vec(&trimmed, &import_kw) {
            let ghost before = text::seqs_of(kept@);
            kept.push(ls[i].clone());
            assert(text::seqs_of(kept@) =~= before.push(ls@[i as int]@));
        }
        i += 1;
    }
    assert(text::seqs_of(ls@).take(ls.len() as int) =~= text::seqs_of(ls@));
    proof {
        reveal_strlit("<CTABox");
        reveal_strlit("<Image");
        reveal_strlit("/>");
    }
    let nl = chars_of("\n");
    let joined = join_vec(&kept, &nl);
    let a = replace_vec(&joined, &chars_of("<CTABox"), &chars_of("\n--- \n> \u{1F4E2} **ANUNCIO (CTA)**\n"));
    let b = replace_vec(&a, &chars_of("<Image"), &chars_of("\n--- \n> \u{1F5BC} **IMAGEN DE ASTRO**\n"));
    let c = replace_vec(&b, &chars_of("/>"), &chars_of("\n--- \n"));
    string_of(&c)
}

} // verus!

verus! {

broadcast use {yaml::lemma_items_view, yaml::lemma_entries_view};

/// The result of splitting a file: its frontmatter mapping and its body text.
pub struct ParsedContent {
    pub frontmatter: YamlMapping,
    pub body: String,
}

/// The two pieces of a file that opens with `---`: the text up to the next `---`
/// (the frontmatter) and everything after that delimiter (the body); `None` when the
/// file does not open with `---` or has no second delimiter.
pub open spec fn split_frontmatter(c: Seq<char>) -> Option<(Seq<char>, Seq<char>)> {
    if !"---"@.is_prefix_of(c) {
        None
    } else {
        let rest = c.skip(3);
        match text::find_seq(rest, "---"@) {
            None => None,
            Some(j) => Some((rest.take(j), rest.skip(j + 3))),
        }
    }
}

/// The frontmatter text of a file that opens with `---`: the text up to the next
/// `---`, or up to the end when there is none.
pub open spec fn frontmatter_text_lenient(c: Seq<char>) -> Option<Seq<char>> {
    if !"---"@.is_prefix_of(c) {
        None
    } else {
        let rest = c.skip(3);
        match text::find_seq(rest, "---"@) {
            None => Some(rest),
            Some(j) => Some(rest.take(j)),
        }
    }
}

/// What `parse_content` gives: the parsed frontmatter and the body after it when the
/// file has both delimiters and its frontmatter is a YAML mapping; otherwise an empty
/// frontmatter and the whole text as body.
pub open spec fn parse_content_spec(c: Seq<char>) -> (Seq<(YamlV, YamlV)>, Seq<char>) {
    match split_frontmatter(c) {
        Some((y, b)) => match yaml_io::yaml_parse_mapping(y) {
            Some(m) => (m, b),
            None => (seq![], c),
        },
        None => (seq![], c),
    }
}

/// The entries whose value is not null, in order.
pub open spec fn without_nulls(m: Seq<(YamlV, YamlV)>) -> Seq<(YamlV, YamlV)>
    decreases m.len(),
{
    if m.len() == 0 {
        seq![]
    } else if yaml_ops::is_null_v(m.last().1) {
        without_nulls(m.drop_last())
    } else {
        without_nulls(m.drop_last()).push(m.last())
    }
}

/// What `serialize_content` writes: `---`, the trimmed YAML of the non-null entries,
/// `---`, a blank line and the body without its leading whitespace.
pub open spec fn serialize_spec(m: Seq<(YamlV, YamlV)>, body: Seq<char>) -> Seq<char> {
    match yaml_io::yaml_emit_mapping(without_nulls(m)) {
        Some(s) => "---\n"@ + text::trim_seq(s) + "\n---\n\n"@ + text::trim_start_seq(body),
        None => "---\n---\n\n"@ + text::trim_start_seq(body),
    }
}

/// Splits a file that opens with `---` at its frontmatter delimiters.
pub fn split_frontmatter_exec(c: &Vec<char>) -> (r: Option<(Vec<char>, Vec<char>)>)
    ensures
        match r {
            Some((y, b)) => split_frontmatter(c@) == Some((y@, b@)),
            None => split_frontmatter(c@) is None,
        },
{
    let delim = chars_of("---");
    proof {
        reveal_strlit("---");
    }
    if !starts_with_vec(c, &delim) {
        return None;
    }
    let rest = slice_vec(c, 3, c.len());
    assert(rest@ =~= c@.skip(3));
    match find_vec(&rest, &delim) {
        None => None,
        Some(j) => {
            proof {
                text::lemma_find_seq(rest@, delim@);
                assert(text::occurs_at(rest@, delim@, j as int));
            }
            let y = slice_vec(&rest, 0, j);
            let b = slice_vec(&rest, j + 3, rest.len());
            assert(y@ =~= rest@.take(j as int));
            assert(b@ =~= rest@.skip(j + 3));
            Some((y, b))
        },
    }
}

/// The frontmatter text of a file that opens with `---`, up to the next `---` or the
/// end of the file.
pub fn frontmatter_text_lenient_exec(c: &Vec<char>) -> (r: Option<Vec<char>>)
    ensures
        match r {
            Some(y) => frontmatter_text_lenient(c@) == Some(y@),
            None => frontmatter_text_lenient(c@) is None,
        },
{
    let delim = chars_of("---");
    proof {
        reveal_strlit("---");
    }
    if !starts_with_vec(c, &delim) {
        return None;
    }
    let rest = slice_vec(c, 3, c.len());
    assert(rest@ =~= c@.skip(3));
    match find_vec(&rest, &delim) {
        None => Some(rest),
        Some(j) => {
            proof {
                text::lemma_find_seq(rest@, delim@);
                assert(text::occurs_at(rest@, delim@, j as int));
            }
            let y = slice_vec(&rest, 0, j);
            assert(y@ =~= rest@.take(j as int));
            Some(y)
        },
    }
}

/// Parses a file into its YAML frontmatter (delimited by `---` at the start) and its
/// body. When there is no well-formed frontmatter the frontmatter is empty and the
/// whole content is the body.
pub fn parse_content(content: &str) -> (r: ParsedContent)
    ensures
        (r.frontmatter@, r.body@) == parse_content_spec(content@),
        yaml_ops::unique_keys(r.frontmatter@),
{
    let c = chars_of(content);
    match split_frontmatter_exec(&c) {
        Some((y, b)) => {
            let ys = string_of(&y);
            match parse_yaml_mapping(ys.as_str()) {
                Some(m) => ParsedContent { frontmatter: m, body: string_of(&b) },
                None => ParsedContent { frontmatter: YamlMapping::new(), body: String::from_str(content) },
            }
        },
        None => ParsedContent { frontmatter: YamlMapping::new(), body: String::from_str(content) },
    }
}

/// The entries of a mapping whose value is not null.
pub fn without_nulls_exec(m: &YamlMapping) -> (r: YamlMapping)
    ensures
        r@ == without_nulls(m@),
{
    let mut out = YamlMapping::new();
    let mut i: usize = 0;
    while i < m.entries.len()
        invariant
            i <= m.entries.len(),
            m@.len() == m.entries.len(),
            out@ == without_nulls(m@.take(i as int)),
        decreases m.entries.len() - i,
    {
        assert(m@.take(i + 1).drop_last() =~= m@.take(i as int));
        let ghost before = out@;
        if !m.entries[i].1.is_null() {
            let k = m.entries[i].0.copy();
            let v = m.entries[i].1.copy();
            out.entries.push((k, v));
            proof {
                yaml::lemma_entries_view_ext(out.entries@, before.push(m@[i as int]));
            }
        }
        i += 1;
    }
    assert(m@.take(m@.len() as int) =~= m@);
    out
}

/// Writes a file from its frontmatter and body: null entries are dropped from the
/// frontmatter, which is written as YAML between `---` lines, followed by a blank line
/// and the body.
pub fn serialize_content(frontmatter: &YamlMapping, body: &str) -> (r: String)
    ensures
        r@ == serialize_spec(frontmatter@, body@),
{
    let clean = without_nulls_exec(frontmatter);
    let b = trim_start_vec(&chars_of(body));
    let out = match emit_yaml_mapping(&clean) {
        Some(s) => {
            let mut out = chars_of("---\n");
            append_vec(&mut out, &trim_vec(&chars_of(s.as_str())));
            append_vec(&mut out, &chars_of("\n---\n\n"));
            append_vec(&mut out, &b);
            out
        },
        None => {
            let mut out = chars_of("---\n---\n\n");
            append_vec(&mut out, &b);
            out
        },
    };
    string_of(&out)
}

} // verus!

verus! {

/// A string holding `assets/` is rewritten to `dots` followed by the text from the
/// first `assets/` on; mappings and sequences are rewritten entry by entry (values
/// only); every other value is unchanged.
pub open spec fn fix_dots_v(v: YamlV, dots: Seq<char>) -> YamlV
    decreases v, 0nat,
{
    match v {
        YamlV::Str(s) => match text::find_seq(s, "assets/"@) {
            Some(pos) => YamlV::Str(dots + s.skip(pos)),
            None => v,
        },
        YamlV::List(items) => YamlV::List(fix_dots_items(items, dots)),
        YamlV::Dict(es) => YamlV::Dict(fix_dots_entries(es, dots)),
        _ => v,
    }
}

/// `fix_dots_v` on each item.
pub open spec fn fix_dots_items(s: Seq<YamlV>, dots: Seq<char>) -> Seq<YamlV>
    decreases s, 0nat,
{
    if s.len() == 0 {
        seq![]
    } else {
        fix_dots_items(s.drop_last(), dots).push(fix_dots_v(s.last(), dots))
    }
}

/// `fix_dots_v` on each entry's value; keys are unchanged.
pub open spec fn fix_dots_entries(s: Seq<(YamlV, YamlV)>, dots: Seq<char>) -> Seq<(YamlV, YamlV)>
    decreases s, 0nat,
{
    if s.len() == 0 {
        seq![]
    } else {
        let e = s.last();
        proof {
            assert(decreases_to!(s => e));
        }
        fix_dots_entries(s.drop_last(), dots).push((e.0, fix_dots_v(e.1, dots)))
    }
}

/// `fix_dots_items` item by item.
pub proof fn lemma_fix_dots_items(s: Seq<YamlV>, dots: Seq<char>)
    ensures
        fix_dots_items(s, dots).len() == s.len(),
        forall|i: int| 0 <= i < s.len() ==> #[trigger] fix_dots_items(s, dots)[i] == fix_dots_v(s[i], dots),
    decreases s.len(),
{
    if s.len() > 0 {
        lemma_fix_dots_items(s.drop_last(), dots);
    }
}

/// `fix_dots_entries` entry by entry.
pub proof fn lemma_fix_dots_entries(s: Seq<(YamlV, YamlV)>, dots: Seq<char>)
    ensures
        fix_dots_entries(s, dots).len() == s.len(),
        forall|i: int|
            0 <= i < s.len() ==> #[trigger] fix_dots_entries(s, dots)[i] == (s[i].0, fix_dots_v(s[i].1, dots)),
    decreases s.len(),
{
    if s.len() > 0 {
        lemma_fix_dots_entries(s.drop_last(), dots);
    }
}

/// The value with its `assets/` paths prefixed by `dots`.
pub fn fixed_dots(v: &yaml::YamlValue, dots: &Vec<char>) -> (r: yaml::YamlValue)
    ensures
        r@ == fix_dots_v(v@, dots@),
    decreases v,
{
    match v {
        yaml::YamlValue::String(s) => {
            let sc = chars_of(s.as_str());
            let pat = chars_of("assets/");
            match find_vec(&sc, &pat) {
                Some(pos) => {
                    proof {
                        text::lemma_find_seq(sc@, pat@);
                        assert(text::occurs_at(sc@, pat@, pos as int));
                    }
                    let mut out = dots.clone();
                    let tail = slice_vec(&sc, pos, sc.len());
                    assert(tail@ =~= sc@.skip(pos as int));
                    append_vec(&mut out, &tail);
                    yaml::YamlValue::String(string_of(&out))
                },
                None => yaml::YamlValue::String(s.clone()),
            }
        },
        yaml::YamlValue::Sequence(items) => {
            let mut out: Vec<yaml::YamlValue> = Vec::new();
            let mut i: usize = 0;
            while i < items.len()
                invariant
                    i <= items.len(),
                    out.len() == i,
                    *v == yaml::YamlValue::Sequence(*items),
                    forall|j: int| 0 <= j < i ==> yaml::value_view(#[trigger] out@[j]) == fix_dots_v(yaml::value_view(items@[j]), dots@),
                decreases items.len() - i,
            {
                proof {
                    assert(decreases_to!(*v => (*v)->Sequence_0));
                    assert(decreases_to!(items => items@));
                    assert(decreases_to!(items@ => items@[i as int]));
                }
                out.push(fixed_dots(&items[i], dots));
                i += 1;
            }
            proof {
                lemma_fix_dots_items(yaml::items_view(items@), dots@);
                yaml::lemma_items_view_ext(out@, fix_dots_items(yaml::items_view(items@), dots@));
            }
            yaml::YamlValue::Sequence(out)
        },
        yaml::YamlValue::Mapping(m) => {
            let mut out: Vec<(yaml::YamlValue, yaml::YamlValue)> = Vec::new();
            let mut i: usize = 0;
            while i < m.entries.len()
                invariant
                    i <= m.entries.len(),
                    out.len() == i,
                    *v == yaml::YamlValue::Mapping(*m),
                    forall|j: int|
                        0 <= j < i ==> (yaml::value_view(#[trigger] out@[j].0), yaml::value_view(out@[j].1)) == (
                            yaml::value_view(m.entries@[j].0),
                            fix_dots_v(yaml::value_view(m.entries@[j].1), dots@),
                        ),
                decreases m.entries.len() - i,
            {
                proof {
                    assert(decreases_to!(*v => (*v)->Mapping_0));
                    assert(decreases_to!(*m => m.entries));
                    assert(decreases_to!(m.entries => m.entries@));
                    assert(decreases_to!(m.entries@ => m.entries@[i as int]));
                }
                let k = m.entries[i].0.copy();
                let nv = fixed_dots(&m.entries[i].1, dots);
                out.push((k, nv));
                i += 1;
            }
            proof {
                lemma_fix_dots_entries(m@, dots@);
                yaml::lemma_entries_view_ext(out@, fix_dots_entries(m@, dots@));
            }
            yaml::YamlValue::Mapping(YamlMapping { entries: out })
        },
        _ => v.copy(),
    }
}

/// Repairs the asset paths inside a YAML value: every string holding `assets/` becomes
/// `needed_dots` followed by the text from `assets/` on, inside mappings and sequences
/// at any depth.
pub fn fix_dots_recursively(value: &mut yaml::YamlValue, needed_dots: &str)
    ensures
        final(value)@ == fix_dots_v(old(value)@, needed_dots@),
{
    let d = chars_of(needed_dots);
    let nv = fixed_dots(value, &d);
    *value = nv;
}

} // verus!

verus! {

/// The YAML text between the delimiters of a saved document.
pub open spec fn written_yaml(m: Seq<(YamlV, YamlV)>) -> Seq<char> {
    match yaml_io::yaml_emit_mapping(without_nulls(m)) {
        Some(s) => "\n"@ + text::trim_seq(s) + "\n"@,
        None => "\n"@,
    }
}

/// A file made of `---`, a text without `---` that ends with a line break, `---` and
/// a tail splits into that text and that tail.
pub proof fn lemma_split_delimited(y: Seq<char>, tail: Seq<char>)
    requires
        !text::contains_seq(y, "---"@),
        y.len() > 0,
        y.last() == '\n',
    ensures
        split_frontmatter("---"@ + y + "---"@ + tail) == Some((y, tail)),
{
    reveal_strlit("---");
    let c = "---"@ + y + "---"@ + tail;
    let rest = c.skip(3);
    assert(c.take(3) =~= "---"@);
    assert(rest =~= y + "---"@ + tail);
    let k = y.len() as int;
    assert(rest.subrange(k, k + 3) =~= "---"@);
    assert forall|j: int| 0 <= j < k implies !#[trigger] text::occurs_at(rest, "---"@, j) by {
        if text::occurs_at(rest, "---"@, j) {
            if j + 3 <= k {
                assert(rest.subrange(j, j + 3) =~= y.subrange(j, j + 3));
                assert(text::occurs_at(y, "---"@, j));
            } else {
                assert(rest.subrange(j, j + 3)[k - 1 - j] == rest[k - 1]);
                assert(rest[k - 1] == y[k - 1]);
            }
        }
    }
    text::lemma_find_first(rest, "---"@, k);
    assert(rest.take(k) =~= y);
    assert(rest.skip(k + 3) =~= tail);
}

/// Saving then loading gives the document back: the saved file splits into the YAML
/// that was written and the body after a blank line (its leading whitespace gone), and
/// loading yields the frontmatter that YAML reads from the written text with that
/// body; this holds when the written YAML does not itself contain `---`.
pub proof fn law_saved_document_reads_back(m: Seq<(YamlV, YamlV)>, body: Seq<char>)
    requires
        match yaml_io::yaml_emit_mapping(without_nulls(m)) {
            Some(s) => !text::contains_seq(text::trim_seq(s), "---"@),
            None => true,
        },
    ensures
        split_frontmatter(serialize_spec(m, body)) == Some((written_yaml(m), "\n\n"@ + text::trim_start_seq(body))),
        parse_content_spec(serialize_spec(m, body)) == match yaml_io::yaml_parse_mapping(written_yaml(m)) {
            Some(fm) => (fm, "\n\n"@ + text::trim_start_seq(body)),
            None => (seq![], serialize_spec(m, body)),
        },
        text::trim_start_seq(parse_content_spec(serialize_spec(m, body)).1) == text::trim_start_seq(body)
            || yaml_io::yaml_parse_mapping(written_yaml(m)) is None,
{
    reveal_strlit("---");
    reveal_strlit("\n");
    reveal_strlit("---\n");
    reveal_strlit("\n---\n\n");
    reveal_strlit("---\n---\n\n");
    reveal_strlit("\n\n");
    let tb = text::trim_start_seq(body);
    let tail = "\n\n"@ + tb;
    let y = written_yaml(m);
    match yaml_io::yaml_emit_mapping(without_nulls(m)) {
        Some(s) => {
            let t = text::trim_seq(s);
            assert(serialize_spec(m, body) =~= "---"@ + y + "---"@ + tail);
            assert forall|j: int| !#[trigger] text::occurs_at(y, "---"@, j) by {
                if text::occurs_at(y, "---"@, j) {
                    if j == 0 {
                        assert(y.subrange(0, 3)[0] == y[0]);
                    } else if j + 3 <= t.len() + 1 {
                        assert(y.subrange(j, j + 3) =~= t.subrange(j - 1, j + 2));
                        assert(text::occurs_at(t, "---"@, j - 1));
                    } else {
                        let last = y.len() - 1;
                        assert(y.subrange(j, j + 3)[last - j] == y[last]);
                    }
                }
            }
        },
        None => {
            assert(serialize_spec(m, body) =~= "---"@ + y + "---"@ + tail);
            assert forall|j: int| !#[trigger] text::occurs_at(y, "---"@, j) by {}
        },
    }
    lemma_split_delimited(y, tail);
    assert forall|i: int| 0 <= i < "\n\n"@.len() implies text::is_ws(#[trigger] "\n\n"@[i]) by {}
    text::lemma_trim_start_prefix("\n\n"@, body);
}

} // verus!

verus! {

/// Splitting a text without carriage returns or a final line break into lines and
/// joining them with `\n` gives the text back.
proof fn lemma_join_lines(s: Seq<char>)
    requires
        forall|i: int| 0 <= i < s.len() ==> s[i] != '\r',
        s.len() == 0 || s.last() != '\n',
    ensures
        text::join_seq(text::lines_seq(s), "\n"@) == s,
    decreases s.len(),
{
    reveal_strlit("\n");
    if s.len() > 0 {
        text::lemma_find_seq(s, seq!['\n']);
        match text::find_seq(s, seq!['\n']) {
            None => {},
            Some(i) => {
                text::lemma_occurs_char(s, '\n', i);
                let rest = s.skip(i + 1);
                assert(rest.len() > 0);
                assert(rest.last() == s.last());
                assert forall|j: int| 0 <= j < rest.len() implies rest[j] != '\r' by {
                    assert(rest[j] == s[i + 1 + j]);
                }
                lemma_join_lines(rest);
                let a = text::strip_cr(s.take(i));
                assert(a == s.take(i)) by {
                    if i > 0 {
                        assert(s.take(i).last() == s[i - 1]);
                    }
                }
                let ls = text::lines_seq(rest);
                assert(ls.len() >= 1);
                let parts = seq![a] + ls;
                assert(text::lines_seq(s) == parts);
                crate::metadata::lemma_join_front(parts, "\n"@);
                assert(parts.drop_first() =~= ls);
                assert(s =~= s.take(i) + seq!['\n'] + rest);
            },
        }
    }
}

/// The preview keeps, in order, exactly the lines whose text, once trimmed, does not
/// start with `import `.
pub proof fn law_import_lines_dropped(ls: Seq<Seq<char>>)
    ensures
        without_import_lines(ls) == ls.filter(|l: Seq<char>| !"import "@.is_prefix_of(text::trim_seq(l))),
    decreases ls.len(),
{
    reveal(Seq::filter);
    if ls.len() > 0 {
        law_import_lines_dropped(ls.drop_last());
    }
}

/// Saving drops exactly the entries whose value is null (a tagged null too), keeping
/// every other entry in order.
pub proof fn law_saved_entries_not_null(m: Seq<(YamlV, YamlV)>)
    ensures
        without_nulls(m) == m.filter(|e: (YamlV, YamlV)| !(yaml_ops::untag(e.1) is Null)),
        forall|i: int|
            0 <= i < m.len() && !(yaml_ops::untag(m[i].1) is Null) ==> without_nulls(m).contains(#[trigger] m[i]),
    decreases m.len(),
{
    reveal(Seq::filter);
    let pred = |e: (YamlV, YamlV)| !(yaml_ops::untag(e.1) is Null);
    if m.len() > 0 {
        law_saved_entries_not_null(m.drop_last());
    }
    assert forall|i: int| 0 <= i < m.len() && !(yaml_ops::untag(m[i].1) is Null) implies without_nulls(m).contains(
        #[trigger] m[i],
    ) by {
        m.lemma_filter_contains(pred, i);
    }
}

/// Keeping the lines that are not import lines keeps all of them when none is one.
proof fn lemma_no_import_lines(ls: Seq<Seq<char>>)
    requires
        forall|i: int| 0 <= i < ls.len() ==> !is_import_line(#[trigger] ls[i]),
    ensures
        without_import_lines(ls) == ls,
    decreases ls.len(),
{
    if ls.len() > 0 {
        assert(!is_import_line(ls[ls.len() - 1]));
        lemma_no_import_lines(ls.drop_last());
        assert(ls.drop_last().push(ls.last()) =~= ls);
    }
}

/// The preview shows a text as it is when it has no import lines, no `<CTABox`, no
/// `<Image`, no `/>`, no carriage return and no final line break.
pub proof fn law_plain_text_preview_unchanged(t: Seq<char>)
    requires
        forall|i: int| 0 <= i < t.len() ==> t[i] != '\r',
        t.len() == 0 || t.last() != '\n',
        forall|i: int|
            0 <= i < text::lines_seq(t).len() ==> !"import "@.is_prefix_of(text::trim_seq(#[trigger] text::lines_seq(t)[i])),
        !text::contains_seq(t, "<CTABox"@),
        !text::contains_seq(t, "<Image"@),
        !text::contains_seq(t, "/>"@),
    ensures
        clean_imports_spec(t) == t,
{
    reveal_strlit("<CTABox");
    reveal_strlit("<Image");
    reveal_strlit("/>");
    lemma_no_import_lines(text::lines_seq(t));
    lemma_join_lines(t);
    text::lemma_replace_absent(t, "<CTABox"@, cta_placeholder());
    text::lemma_replace_absent(t, "<Image"@, image_placeholder());
    text::lemma_replace_absent(t, "/>"@, close_placeholder());
}

/// An attribute value never holds a double quote.
pub proof fn law_attr_value_unquoted(tag: Seq<char>, attr: Seq<char>)
    ensures
        extract_attr_spec(tag, attr) matches Some(v) ==> forall|i: int| 0 <= i < v.len() ==> #[trigger] v[i] != '"',
{
    let pat = attr + seq!['=', '"'];
    match text::find_seq(tag, pat) {
        None => {},
        Some(st) => {
            let rest = tag.skip(st + pat.len());
            text::lemma_find_seq(rest, seq!['"']);
            match text::find_seq(rest, seq!['"']) {
                None => {},
                Some(e) => {
                    let v = rest.take(e);
                    assert forall|i: int| 0 <= i < v.len() implies #[trigger] v[i] != '"' by {
                        text::lemma_occurs_char(rest, '"', i);
                    }
                },
            }
        },
    }
}

/// Recalculating asset paths after an earlier recalculation gives what recalculating
/// the original value does: only the last prefix counts, when the earlier prefix does
/// not itself hold `assets/`.
pub proof fn law_fix_dots_refix(v: YamlV, d1: Seq<char>, d2: Seq<char>)
    requires
        !text::contains_seq(d1, "assets/"@),
    ensures
        fix_dots_v(fix_dots_v(v, d1), d2) == fix_dots_v(v, d2),
    decreases v,
{
    reveal_strlit("assets/");
    match v {
        YamlV::Str(s) => {
            let pat = "assets/"@;
            text::lemma_find_seq(s, pat);
            match text::find_seq(s, pat) {
                Some(pos) => {
                    let r = d1 + s.skip(pos);
                    let k = d1.len() as int;
                    assert(r.subrange(k, k + 7) =~= s.subrange(pos, pos + 7));
                    assert(r[k] == 'a') by {
                        assert(s.subrange(pos, pos + 7)[0] == s[pos]);
                    }
                    assert forall|j: int| 0 <= j < k implies !#[trigger] text::occurs_at(r, pat, j) by {
                        if text::occurs_at(r, pat, j) {
                            if j + 7 <= k {
                                assert(d1.subrange(j, j + 7) =~= r.subrange(j, j + 7));
                                assert(text::occurs_at(d1, pat, j));
                            } else {
                                assert(r.subrange(j, j + 7)[k - j] == r[k]);
                            }
                        }
                    }
                    text::lemma_find_first(r, pat, k);
                    assert(r.skip(k) =~= s.skip(pos));
                },
                None => {},
            }
        },
        YamlV::List(items) => {
            let once = fix_dots_items(items, d1);
            lemma_fix_dots_items(items, d1);
            lemma_fix_dots_items(once, d2);
            lemma_fix_dots_items(items, d2);
            assert forall|i: int| 0 <= i < items.len() implies #[trigger] fix_dots_items(once, d2)[i]
                == fix_dots_items(items, d2)[i] by {
                assert(decreases_to!(v => items[i]));
                law_fix_dots_refix(items[i], d1, d2);
            }
            assert(fix_dots_items(once, d2) =~= fix_dots_items(items, d2));
        },
        YamlV::Dict(es) => {
            let once = fix_dots_entries(es, d1);
            lemma_fix_dots_entries(es, d1);
            lemma_fix_dots_entries(once, d2);
            lemma_fix_dots_entries(es, d2);
            assert forall|i: int| 0 <= i < es.len() implies #[trigger] fix_dots_entries(once, d2)[i]
                == fix_dots_entries(es, d2)[i] by {
                assert(decreases_to!(v => es[i].1));
                law_fix_dots_refix(es[i].1, d1, d2);
            }
            assert(fix_dots_entries(once, d2) =~= fix_dots_entries(es, d2));
        },
        _ => {},
    }
}

/// Recalculating asset paths twice with the same prefix gives what once does, when the
/// prefix does not itself hold `assets/` (as no prefix of `../` does).
pub proof fn law_fix_dots_idempotent(v: YamlV, dots: Seq<char>)
    requires
        !text::contains_seq(dots, "assets/"@),
    ensures
        fix_dots_v(fix_dots_v(v, dots), dots) == fix_dots_v(v, dots),
{
    law_fix_dots_refix(v, dots, dots);
}

} // verus!

verus! {

/// The user manual with its relative image links (`](assets/`) pointing into
/// `assets_dir` through a `file:///` address (with `\` written as `/`).
pub open spec fn manual_with_assets_spec(raw: Seq<char>, assets_dir: Seq<char>) -> Seq<char> {
    text::replace_seq(raw, "](assets/"@, "](file:///"@ + text::replace_seq(assets_dir, "\\"@, "/"@))
}

/// Points the manual's image links at the directory holding its images (see
/// `manual_with_assets_spec`).
pub fn manual_with_assets(raw: &str, assets_dir: &str) -> (r: String)
    ensures
        r@ == manual_with_assets_spec(raw@, assets_dir@),
{
    proof {
        reveal_strlit("\\");
        reveal_strlit("](assets/");
    }
    let dir = replace_vec(&chars_of(assets_dir), &chars_of("\\"), &chars_of("/"));
    let mut target = chars_of("](file:///");
    append_vec(&mut target, &dir);
    string_of(&replace_vec(&chars_of(raw), &chars_of("](assets/"), &target))
}

} // verus!
