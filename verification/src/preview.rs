//! The preview of a document body: plain Markdown pieces and `<Notice>` boxes, and the
//! look of each kind of notice.

use vstd::prelude::*;
use crate::content;
use crate::text;
use crate::text::{chars_of, find_vec_from, slice_vec, string_of, trim_vec};

verus! {

/// The kinds of notice box.
#[derive(Clone, Copy, Debug, PartialEq, Eq, Structural)]
pub enum NoticeKind {
    Note,
    Tip,
    Info,
    Warning,
    Danger,
    Success,
}

/// The kind and icon of a notice of the given `type`; unknown types show as
/// information.
pub open spec fn notice_style_spec(notice_type: Seq<char>) -> (NoticeKind, Seq<char>) {
    if notice_type == "tip"@ {
        (NoticeKind::Tip, "\u{1F4A1}"@)
    } else if notice_type == "warning"@ {
        (NoticeKind::Warning, "\u{26A0}"@)
    } else if notice_type == "danger"@ {
        (NoticeKind::Danger, "\u{1F6AB}"@)
    } else if notice_type == "success"@ {
        (NoticeKind::Success, "\u{2714}"@)
    } else if notice_type == "note"@ {
        (NoticeKind::Note, "\u{1F4DD}"@)
    } else {
        (NoticeKind::Info, "\u{2139}"@)
    }
}

/// The kind and icon of a notice of the given `type` (see `notice_style_spec`).
pub fn notice_style(notice_type: &str) -> (r: (NoticeKind, String))
    ensures
        r.0 == notice_style_spec(notice_type@).0,
        r.1@ == notice_style_spec(notice_type@).1,
{
    let t = String::from_str(notice_type);
    if t == String::from_str("tip") {
        (NoticeKind::Tip, String::from_str("\u{1F4A1}"))
    } else if t == String::from_str("warning") {
        (NoticeKind::Warning, String::from_str("\u{26A0}"))
    } else if t == String::from_str("danger") {
        (NoticeKind::Danger, String::from_str("\u{1F6AB}"))
    } else if t == String::from_str("success") {
        (NoticeKind::Success, String::from_str("\u{2714}"))
    } else if t == String::from_str("note") {
        (NoticeKind::Note, String::from_str("\u{1F4DD}"))
    } else {
        (NoticeKind::Info, String::from_str("\u{2139}"))
    }
}

/// A piece of the preview: Markdown text, or a notice with its type, title and body.
pub enum PreviewBlock {
    Markdown(String),
    Notice { notice_type: String, title: String, body: String },
}

/// The content of a preview piece.
pub enum PreviewBlockV {
    Markdown(Seq<char>),
    Notice(Seq<char>, Seq<char>, Seq<char>),
}

impl View for PreviewBlock {
    type V = PreviewBlockV;

    open spec fn view(&self) -> PreviewBlockV {
        match self {
            PreviewBlock::Markdown(s) => PreviewBlockV::Markdown(s@),
            PreviewBlock::Notice { notice_type, title, body } => PreviewBlockV::Notice(
                notice_type@,
                title@,
                body@,
            ),
        }
    }
}

/// The contents of a list of preview pieces.
pub open spec fn blocks_view(v: Seq<PreviewBlock>) -> Seq<PreviewBlockV> {
    v.map_values(|b: PreviewBlock| b@)
}

/// The Markdown piece for a stretch of text: the text cleaned for the preview, left out
/// when nothing but blanks remains.
pub open spec fn markdown_piece(t: Seq<char>) -> Seq<PreviewBlockV> {
    let c = content::clean_imports_spec(t);
    if text::trim_seq(c).len() == 0 {
        seq![]
    } else {
        seq![PreviewBlockV::Markdown(c)]
    }
}

/// The notice piece for an opening tag (without its `>`) and the text up to
/// `</Notice>`: its `type` (`info` when absent), its `title` (empty when absent) and
/// its trimmed body.
pub open spec fn notice_piece(tag: Seq<char>, inner: Seq<char>) -> PreviewBlockV {
    PreviewBlockV::Notice(
        match content::extract_attr_spec(tag, "type"@) {
            Some(t) => t,
            None => "info"@,
        },
        match content::extract_attr_spec(tag, "title"@) {
            Some(t) => t,
            None => seq![],
        },
        text::trim_seq(inner),
    )
}

/// What follows an opening `<Notice` at `st`: the notice piece, when the tag closes
/// with `>` and a `</Notice>` follows, and the position where the scan goes on (past
/// `</Notice>`, or just past the `>` or the `<` when something is missing).
pub open spec fn after_open(c: Seq<char>, st: int) -> (Seq<PreviewBlockV>, int) {
    match text::find_from(c, seq!['>'], st) {
        None => (seq![], st + 1),
        Some(te) => match text::find_from(c, "</Notice>"@, te) {
            None => (seq![], te + 1),
            Some(ne) => (seq![notice_piece(c.subrange(st, te), c.subrange(te + 1, ne))], ne + 9),
        },
    }
}

/// The scan moves forward and stays within the text.
pub proof fn lemma_after_open(c: Seq<char>, st: int)
    requires
        0 <= st < c.len(),
    ensures
        st < after_open(c, st).1 <= c.len(),
        match text::find_from(c, seq!['>'], st) {
            Some(te) => st <= te < c.len() && c[te] == '>' && match text::find_from(c, "</Notice>"@, te) {
                Some(ne) => te < ne && ne + 9 <= c.len(),
                None => true,
            },
            None => true,
        },
{
    text::lemma_find_from(c, seq!['>'], st);
    reveal_strlit("</Notice>");
    match text::find_from(c, seq!['>'], st) {
        Some(te) => {
            assert(c.subrange(te, te + 1)[0] == c[te]);
            text::lemma_find_from(c, "</Notice>"@, te);
            match text::find_from(c, "</Notice>"@, te) {
                Some(ne) => {
                    assert(c.subrange(ne, ne + 9)[0] == c[ne]);
                    assert("</Notice>"@[0] == '<');
                },
                None => {},
            }
        },
        None => {},
    }
}

/// The pieces of `c` from position `pos` on: text up to the next `<Notice`, then what
/// follows the opening tag (see `after_open`), and so on.
pub open spec fn blocks_from(c: Seq<char>, pos: int) -> Seq<PreviewBlockV>
    decreases c.len() - pos,
{
    if pos < 0 || pos > c.len() {
        seq![]
    } else {
        match text::find_from(c, "<Notice"@, pos) {
            None => if pos < c.len() {
                markdown_piece(c.subrange(pos, c.len() as int))
            } else {
                seq![]
            },
            Some(st) => {
                proof {
                    text::lemma_find_from(c, "<Notice"@, pos);
                    reveal_strlit("<Notice");
                    lemma_after_open(c, st);
                }
                let before = if st > pos {
                    markdown_piece(c.subrange(pos, st))
                } else {
                    seq![]
                };
                before + after_open(c, st).0 + blocks_from(c, after_open(c, st).1)
            },
        }
    }
}

/// The preview pieces of a document body.
pub open spec fn preview_blocks_spec(c: Seq<char>) -> Seq<PreviewBlockV> {
    blocks_from(c, 0)
}

/// The Markdown piece for a stretch of text (see `markdown_piece`).
fn push_markdown(out: &mut Vec<PreviewBlock>, t: &Vec<char>)
    ensures
        blocks_view(final(out)@) == blocks_view(old(out)@) + markdown_piece(t@),
{
    let clean = content::clean_imports_for_preview(string_of(t).as_str());
    let cv = chars_of(clean.as_str());
    let tr = trim_vec(&cv);
    if tr.len() == 0 {
        assert(blocks_view(old(out)@) + markdown_piece(t@) =~= blocks_view(old(out)@));
    } else {
        let ghost before = blocks_view(out@);
        out.push(PreviewBlock::Markdown(clean));
        assert(blocks_view(out@) =~= before + markdown_piece(t@));
    }
}

/// The notice piece for an opening tag and its inner text (see `notice_piece`).
fn notice_block(tag: &Vec<char>, inner: &Vec<char>) -> (r: PreviewBlock)
    ensures
        r@ == notice_piece(tag@, inner@),
{
    let tag_s = string_of(tag);
    let notice_type = match content::extract_attr(tag_s.as_str(), "type") {
        Some(t) => t,
        None => String::from_str("info"),
    };
    let title = match content::extract_attr(tag_s.as_str(), "title") {
        Some(t) => t,
        None => String::new(),
    };
    PreviewBlock::Notice { notice_type, title, body: string_of(&trim_vec(inner)) }
}

/// Handles what follows an opening `<Notice` at `st` (see `after_open`).
fn scan_notice(c: &Vec<char>, st: usize, out: &mut Vec<PreviewBlock>) -> (next: usize)
    requires
        st < c.len(),
    ensures
        blocks_view(final(out)@) == blocks_view(old(out)@) + after_open(c@, st as int).0,
        next == after_open(c@, st as int).1,
{
    proof {
        lemma_after_open(c@, st as int);
        reveal_strlit(">");
        reveal_strlit("</Notice>");
    }
    let gt = chars_of(">");
    assert(gt@ =~= seq!['>']);
    match find_vec_from(c, &gt, st) {
        None => {
            assert(blocks_view(old(out)@) + after_open(c@, st as int).0 =~= blocks_view(old(out)@));
            st + 1
        },
        Some(te) => match find_vec_from(c, &chars_of("</Notice>"), te) {
            None => {
                assert(blocks_view(old(out)@) + after_open(c@, st as int).0 =~= blocks_view(old(out)@));
                te + 1
            },
            Some(ne) => {
                let tag = slice_vec(c, st, te);
                let inner = slice_vec(c, te + 1, ne);
                let b = notice_block(&tag, &inner);
                let ghost before = blocks_view(out@);
                out.push(b);
                assert(blocks_view(out@) =~= before + after_open(c@, st as int).0);
                ne + 9
            },
        },
    }
}

/// Splits a document body into preview pieces (see `blocks_from`).
pub fn preview_blocks(content: &str) -> (r: Vec<PreviewBlock>)
    ensures
        blocks_view(r@) == preview_blocks_spec(content@),
{
    let c = chars_of(content);
    let open = chars_of("<Notice");
    let mut out: Vec<PreviewBlock> = Vec::new();
    let mut pos: usize = 0;
    assert(blocks_view(out@) =~= Seq::<PreviewBlockV>::empty());
    loop
        invariant
            pos <= c.len(),
            c@ == content@,
            open@ == "<Notice"@,
            blocks_view(out@) + blocks_from(c@, pos as int) == blocks_from(c@, 0),
        decreases c.len() - pos,
    {
        let ghost out0 = blocks_view(out@);
        proof {
            reveal_strlit("<Notice");
        }
        match find_vec_from(&c, &open, pos) {
            None => {
                if pos < c.len() {
                    let rest = slice_vec(&c, pos, c.len());
                    push_markdown(&mut out, &rest);
                }
                assert(blocks_view(out@) =~= out0 + blocks_from(c@, pos as int));
                return out;
            },
            Some(st) => {
                proof {
                    text::lemma_find_from(c@, open@, pos as int);
                    lemma_after_open(c@, st as int);
                }
                if st > pos {
                    let t = slice_vec(&c, pos, st);
                    push_markdown(&mut out, &t);
                }
                let next = scan_notice(&c, st, &mut out);
                assert(blocks_view(out@) + blocks_from(c@, next as int) =~= out0 + blocks_from(
                    c@,
                    pos as int,
                ));
                pos = next;
            },
        }
    }
}

} // verus!
