//! Line-by-line highlighting of the editor text.

use vstd::prelude::*;
use crate::text;
use crate::text::{chars_of, contains_vec, slice_vec, starts_with_vec, string_of, trim_vec};

verus! {

/// How a line of the editor is drawn.
#[derive(Clone, Copy, Debug, PartialEq, Eq, Structural)]
pub enum LineStyle {
    /// A Markdown heading, larger and in the primary text color.
    Heading,
    /// An import or a frontmatter fence, faint.
    Faint,
    /// A danger notice tag.
    NoticeDanger,
    /// A warning notice tag.
    NoticeWarning,
    /// A success notice tag.
    NoticeSuccess,
    /// A tip notice tag.
    NoticeTip,
    /// Any other notice tag, in the brand color.
    NoticeOther,
    /// Another tag.
    Markup,
    /// Ordinary text.
    Body,
}

/// `s` without its trailing carriage returns (`trim_end_matches('\r')`).
pub open spec fn trim_trailing_cr(s: Seq<char>) -> Seq<char>
    decreases s.len(),
{
    if s.len() > 0 && s.last() == '\r' {
        trim_trailing_cr(s.drop_last())
    } else {
        s
    }
}

/// The style of a line: headings start with `#`; imports and fences with `import` or
/// `---`; a notice tag (after leading blanks) takes the color of its type; other tags
/// start with `<` after leading blanks.
pub open spec fn line_style_spec(line: Seq<char>) -> LineStyle {
    if "#"@.is_prefix_of(line) {
        LineStyle::Heading
    } else if "import"@.is_prefix_of(line) || "---"@.is_prefix_of(line) {
        LineStyle::Faint
    } else if "<Notice"@.is_prefix_of(text::trim_seq(line)) {
        if text::contains_seq(line, "type=\"danger\""@) {
            LineStyle::NoticeDanger
        } else if text::contains_seq(line, "type=\"warning\""@) {
            LineStyle::NoticeWarning
        } else if text::contains_seq(line, "type=\"success\""@) {
            LineStyle::NoticeSuccess
        } else if text::contains_seq(line, "type=\"tip\""@) {
            LineStyle::NoticeTip
        } else {
            LineStyle::NoticeOther
        }
    } else if "<"@.is_prefix_of(text::trim_seq(line)) {
        LineStyle::Markup
    } else {
        LineStyle::Body
    }
}

/// The lines of the editor text (split at `\n`, trailing carriage returns dropped),
/// each with its style.
pub open spec fn highlighted_spec(t: Seq<char>) -> Seq<(Seq<char>, LineStyle)> {
    crate::paths::split_char(t, '\n').map_values(
        |p: Seq<char>| (trim_trailing_cr(p), line_style_spec(trim_trailing_cr(p))),
    )
}

/// The style of a line (see `line_style_spec`).
pub fn line_style(line: &str) -> (r: LineStyle)
    ensures
        r == line_style_spec(line@),
{
    let l = chars_of(line);
    let t = trim_vec(&l);
    if starts_with_vec(&l, &chars_of("#")) {
        LineStyle::Heading
    } else if starts_with_vec(&l, &chars_of("import")) || starts_with_vec(&l, &chars_of("---")) {
        LineStyle::Faint
    } else if starts_with_vec(&t, &chars_of("<Notice")) {
        if contains_vec(&l, &chars_of("type=\"danger\"")) {
            LineStyle::NoticeDanger
        } else if contains_vec(&l, &chars_of("type=\"warning\"")) {
            LineStyle::NoticeWarning
        } else if contains_vec(&l, &chars_of("type=\"success\"")) {
            LineStyle::NoticeSuccess
        } else if contains_vec(&l, &chars_of("type=\"tip\"")) {
            LineStyle::NoticeTip
        } else {
            LineStyle::NoticeOther
        }
    } else if starts_with_vec(&t, &chars_of("<")) {
        LineStyle::Markup
    } else {
        LineStyle::Body
    }
}

/// A piece without its trailing carriage returns.
fn trim_trailing_cr_vec(s: &Vec<char>) -> (r: Vec<char>)
    ensures
        r@ == trim_trailing_cr(s@),
{
    let mut i = s.len();
    assert(s@.take(s.len() as int) =~= s@);
    while i > 0 && s[i - 1] == '\r'
        invariant
            i <= s.len(),
            trim_trailing_cr(s@) == trim_trailing_cr(s@.take(i as int)),
        decreases i,
    {
        assert(s@.take(i as int).drop_last() =~= s@.take(i - 1));
        i -= 1;
    }
    assert(s@.subrange(0, i as int) =~= s@.take(i as int));
    slice_vec(s, 0, i)
}

/// The lines of the editor text with their styles (see `highlighted_spec`).
pub fn highlighted_lines(t: &str) -> (r: Vec<(String, LineStyle)>)
    ensures
        r@.len() == highlighted_spec(t@).len(),
        forall|i: int|
            0 <= i < r@.len() ==> #[trigger] r@[i].0@ == highlighted_spec(t@)[i].0 && r@[i].1
                == highlighted_spec(t@)[i].1,
{
    let parts = crate::paths::split_char_vec(&chars_of(t), '\n');
    let mut r: Vec<(String, LineStyle)> = Vec::new();
    let mut i: usize = 0;
    while i < parts.len()
        invariant
            i <= parts.len(),
            text::seqs_of(parts@) == crate::paths::split_char(t@, '\n'),
            r@.len() == i,
            forall|j: int|
                0 <= j < i ==> #[trigger] r@[j].0@ == highlighted_spec(t@)[j].0 && r@[j].1
                    == highlighted_spec(t@)[j].1,
        decreases parts.len() - i,
    {
        let line = string_of(&trim_trailing_cr_vec(&parts[i]));
        let st = line_style(line.as_str());
        assert(text::seqs_of(parts@)[i as int] == parts@[i as int]@);
        r.push((line, st));
        i += 1;
    }
    r
}

} // verus!
