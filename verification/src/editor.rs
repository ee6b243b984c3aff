//! Editing the document body: inserting snippets around the selection, adding
//! component imports, and the cursor bookkeeping that goes with them.

use vstd::prelude::*;
use crate::asset_refs;
use crate::content;
use crate::text;
use crate::text::{append_vec, chars_of, contains_vec, ends_with_vec, slice_vec, starts_with_vec, string_of};

verus! {

/// The editable part of an open document: its body, the editor's selection (character
/// positions), the selection to push back into the editor, the preview switch, and the
/// status line.
pub struct EditSession {
    pub body: String,
    pub selection: Option<(usize, usize)>,
    pub pending_selection: Option<(usize, usize)>,
    pub showing_markdown_mode: bool,
    pub status_message: String,
}

/// The content of an edit session.
pub struct EditSessionV {
    pub body: Seq<char>,
    pub selection: Option<(usize, usize)>,
    pub pending_selection: Option<(usize, usize)>,
    pub showing_markdown_mode: bool,
    pub status_message: Seq<char>,
}

impl View for EditSession {
    type V = EditSessionV;

    open spec fn view(&self) -> EditSessionV {
        EditSessionV {
            body: self.body@,
            selection: self.selection,
            pending_selection: self.pending_selection,
            showing_markdown_mode: self.showing_markdown_mode,
            status_message: self.status_message@,
        }
    }
}

/// `s` without its leading line breaks (`trim_start_matches('\n')`).
pub open spec fn trim_leading_newlines(s: Seq<char>) -> Seq<char>
    decreases s.len(),
{
    if s.len() > 0 && s[0] == '\n' {
        trim_leading_newlines(s.drop_first())
    } else {
        s
    }
}

/// The text put between `before` and `after` when nothing is selected: a link title,
/// the body of a notice, or a code line; nothing otherwise (bold and italic markers are
/// inserted empty, with the cursor between them).
pub open spec fn placeholder_for(before: Seq<char>, after: Seq<char>) -> Seq<char> {
    if before == "["@ && after == "](url)"@ {
        "título"@
    } else if text::contains_seq(before, "<Notice"@) {
        "Escribe aquí tu contenido..."@
    } else if text::contains_seq(before, "```"@) || text::contains_seq(before, "<pre"@) {
        "\n  // Código aquí\n"@
    } else {
        seq![]
    }
}

/// The markers are those of bold (`**`) or italic (`*`) text.
pub open spec fn is_inline_format(before: Seq<char>, after: Seq<char>) -> bool {
    (before == "**"@ && after == "**"@) || (before == "*"@ && after == "*"@)
}

/// The opening text as inserted after `prefix`: leading line breaks dropped at the
/// start of the body or after a blank line, one of two dropped after a single line
/// break, and a blank line added before a block (`<` or `|`) that would otherwise
/// continue the current line.
pub open spec fn adjusted_before(prefix: Seq<char>, before: Seq<char>) -> Seq<char> {
    if prefix.len() == 0 || "\n\n"@.is_suffix_of(prefix) {
        trim_leading_newlines(before)
    } else if prefix.last() == '\n' {
        if "\n\n"@.is_prefix_of(before) {
            before.drop_first()
        } else {
            before
        }
    } else if text::contains_seq(before, seq!['<']) || text::contains_seq(before, seq!['|']) {
        if before.len() > 0 && before[0] == '\n' {
            before
        } else {
            "\n\n"@ + before
        }
    } else {
        before
    }
}

/// The selection as (start, end) with start not after end; the end of the body when
/// there is none.
pub open spec fn sel_bounds(sel: Option<(usize, usize)>, n: nat) -> (int, int) {
    match sel {
        Some((a, b)) => if a <= b {
            (a as int, b as int)
        } else {
            (b as int, a as int)
        },
        None => (n as int, n as int),
    }
}

/// The larger end of the selection, or the body length when there is none.
pub open spec fn sel_high(sel: Option<(usize, usize)>, n: nat) -> int {
    sel_bounds(sel, n).1
}

/// `i`, but at most `n`.
pub open spec fn clamp(i: int, n: nat) -> int {
    if i < n {
        i
    } else {
        n as int
    }
}

/// The session after wrapping the selection in `before` and `after` (the placeholder
/// standing for an empty selection): the cursor goes after the inserted text, or
/// between the markers for empty bold or italic text, and the editor view is shown.
pub open spec fn replaced(s: EditSessionV, before: Seq<char>, after: Seq<char>) -> EditSessionV {
    let n = s.body.len();
    let (lo, hi) = sel_bounds(s.selection, n);
    let lo_c = clamp(lo, n);
    let hi_c = clamp(hi, n);
    let prefix = s.body.take(lo_c);
    let selected = s.body.subrange(lo_c, hi_c);
    let inner = if selected.len() == 0 {
        placeholder_for(before, after)
    } else {
        selected
    };
    let fb = adjusted_before(prefix, before);
    let pos = if selected.len() == 0 && is_inline_format(before, after) {
        lo + fb.len()
    } else {
        lo + fb.len() + inner.len() + after.len()
    };
    EditSessionV {
        body: prefix + fb + inner + after + s.body.skip(hi_c),
        selection: Some((pos as usize, pos as usize)),
        pending_selection: Some((pos as usize, pos as usize)),
        showing_markdown_mode: false,
        status_message: s.status_message,
    }
}

/// No placeholder is longer than thirty characters.
pub proof fn lemma_placeholder_len(before: Seq<char>, after: Seq<char>)
    ensures
        placeholder_for(before, after).len() <= 30,
{
    reveal_strlit("título");
    reveal_strlit("Escribe aquí tu contenido...");
    reveal_strlit("\n  // Código aquí\n");
}

/// Removing leading line breaks never lengthens a text.
pub proof fn lemma_trim_leading_newlines_len(s: Seq<char>)
    ensures
        trim_leading_newlines(s).len() <= s.len(),
    decreases s.len(),
{
    if s.len() > 0 && s[0] == '\n' {
        lemma_trim_leading_newlines_len(s.drop_first());
    }
}

/// The adjusted opening text is at most two characters longer than the given one.
pub proof fn lemma_adjusted_before_len(prefix: Seq<char>, before: Seq<char>)
    ensures
        adjusted_before(prefix, before).len() <= before.len() + 2,
{
    reveal_strlit("\n\n");
    lemma_trim_leading_newlines_len(before);
}

} // verus!

verus! {

/// `s` without its leading line breaks.
fn trim_leading_newlines_vec(s: &Vec<char>) -> (r: Vec<char>)
    ensures
        r@ == trim_leading_newlines(s@),
{
    let mut i: usize = 0;
    assert(s@.skip(0) =~= s@);
    while i < s.len() && s[i] == '\n'
        invariant
            i <= s.len(),
            trim_leading_newlines(s@) == trim_leading_newlines(s@.skip(i as int)),
        decreases s.len() - i,
    {
        assert(s@.skip(i as int).drop_first() =~= s@.skip(i + 1));
        i += 1;
    }
    assert(s@.subrange(i as int, s@.len() as int) =~= s@.skip(i as int));
    slice_vec(s, i, s.len())
}

/// The placeholder for an empty selection (see `placeholder_for`).
fn placeholder_vec(before: &Vec<char>, after: &Vec<char>) -> (r: Vec<char>)
    ensures
        r@ == placeholder_for(before@, after@),
{
    if crate::text::vec_eq(before, &chars_of("[")) && crate::text::vec_eq(after, &chars_of("](url)")) {
        chars_of("título")
    } else if contains_vec(before, &chars_of("<Notice")) {
        chars_of("Escribe aquí tu contenido...")
    } else if contains_vec(before, &chars_of("```")) || contains_vec(before, &chars_of("<pre")) {
        chars_of("\n  // Código aquí\n")
    } else {
        Vec::new()
    }
}

/// The opening text as inserted after `prefix` (see `adjusted_before`).
fn adjust_before_vec(prefix: &Vec<char>, before: &Vec<char>) -> (r: Vec<char>)
    ensures
        r@ == adjusted_before(prefix@, before@),
{
    if prefix.len() == 0 || ends_with_vec(prefix, &chars_of("\n\n")) {
        trim_leading_newlines_vec(before)
    } else if prefix[prefix.len() - 1] == '\n' {
        if starts_with_vec(before, &chars_of("\n\n")) {
            slice_vec(before, 1, before.len())
        } else {
            before.clone()
        }
    } else if contains_vec(before, &chars_of("<")) || contains_vec(before, &chars_of("|")) {
        proof {
            reveal_strlit("<");
            reveal_strlit("|");
            assert("<"@ =~= seq!['<']);
            assert("|"@ =~= seq!['|']);
        }
        if before.len() > 0 && before[0] == '\n' {
            before.clone()
        } else {
            let mut r = chars_of("\n\n");
            append_vec(&mut r, before);
            r
        }
    } else {
        proof {
            reveal_strlit("<");
            reveal_strlit("|");
            assert("<"@ =~= seq!['<']);
            assert("|"@ =~= seq!['|']);
        }
        before.clone()
    }
}

impl EditSession {
    /// Wraps the selection in `before` and `after` (see `replaced`).
    pub fn insert_replacement(&mut self, before: &str, after: &str)
        requires
            sel_high(old(self).selection, old(self).body@.len()) + old(self).body@.len() + before@.len()
                + after@.len() + 32 <= usize::MAX,
        ensures
            final(self)@ == replaced(old(self)@, before@, after@),
    {
        let ghost s0 = self@;
        let body = chars_of(self.body.as_str());
        let n = body.len();
        let (a, b) = match self.selection {
            Some((x, y)) => (x, y),
            None => (n, n),
        };
        let lo = if a <= b { a } else { b };
        let hi = if a <= b { b } else { a };
        let lo_c = if lo < n { lo } else { n };
        let hi_c = if hi < n { hi } else { n };
        let prefix = slice_vec(&body, 0, lo_c);
        let selected = slice_vec(&body, lo_c, hi_c);
        let bv = chars_of(before);
        let av = chars_of(after);
        let inner = if selected.len() == 0 {
            placeholder_vec(&bv, &av)
        } else {
            selected.clone()
        };
        let fb = adjust_before_vec(&prefix, &bv);
        proof {
            lemma_placeholder_len(before@, after@);
            lemma_adjusted_before_len(prefix@, before@);
            assert(prefix@ =~= body@.take(lo_c as int));
        }
        let inline = (crate::text::vec_eq(&bv, &chars_of("**")) && crate::text::vec_eq(&av, &chars_of("**")))
            || (crate::text::vec_eq(&bv, &chars_of("*")) && crate::text::vec_eq(&av, &chars_of("*")));
        let pos = if selected.len() == 0 && inline {
            lo + fb.len()
        } else {
            lo + fb.len() + inner.len() + av.len()
        };
        let mut nb = prefix;
        append_vec(&mut nb, &fb);
        append_vec(&mut nb, &inner);
        append_vec(&mut nb, &av);
        let rest = slice_vec(&body, hi_c, n);
        append_vec(&mut nb, &rest);
        assert(rest@ =~= body@.skip(hi_c as int));
        self.body = string_of(&nb);
        self.selection = Some((pos, pos));
        self.pending_selection = Some((pos, pos));
        self.showing_markdown_mode = false;
    }
}

} // verus!

verus! {

/// The text whose presence in the body shows that an import is already there: the
/// component's import prefix for `Notice`, `CTABox` and `Image`, the statement itself
/// otherwise.
pub open spec fn import_marker(stmt: Seq<char>) -> Seq<char> {
    if text::contains_seq(stmt, "import Notice from"@) {
        "import Notice from"@
    } else if text::contains_seq(stmt, "import CTABox from"@) {
        "import CTABox from"@
    } else if text::contains_seq(stmt, "astro:assets"@) {
        "import { Image }"@
    } else {
        stmt
    }
}

/// The session after making sure that `stmt` is imported: when the body lacks it, the
/// statement and a line break open the body, the selection moves with the text, and
/// the status line says so.
pub open spec fn with_import(s: EditSessionV, stmt: Seq<char>) -> EditSessionV {
    if text::contains_seq(s.body, import_marker(stmt)) {
        s
    } else {
        let shift = stmt.len() + 1;
        let sel = match s.selection {
            Some((a, b)) => Some(((a + shift) as usize, (b + shift) as usize)),
            None => None,
        };
        EditSessionV {
            body: stmt + seq!['\n'] + s.body,
            selection: sel,
            pending_selection: if s.selection is Some {
                sel
            } else {
                s.pending_selection
            },
            showing_markdown_mode: s.showing_markdown_mode,
            status_message: "📦 Componente importado"@,
        }
    }
}

/// The session after inserting `t` at the cursor (replacing the selection).
pub open spec fn inserted(s: EditSessionV, t: Seq<char>) -> EditSessionV {
    replaced(s, t, seq![])
}

/// The import of a component file of the site, relative to the open document.
pub open spec fn component_import(
    name: Seq<char>,
    content_dir: Seq<char>,
    collection: Seq<char>,
    file: Seq<char>,
) -> Seq<char> {
    "import "@ + name + " from \""@ + crate::paths::rel_path_spec(
        content_dir,
        collection,
        file,
        "src/components/"@ + name + ".astro"@,
    ) + "\";"@
}

/// The opening tag of a notice.
pub open spec fn notice_open(notice_type: Seq<char>, title: Seq<char>) -> Seq<char> {
    "\n\n<Notice type=\""@ + notice_type + "\" title=\""@ + title + "\">\n"@
}

/// The closing tag of a notice.
pub open spec fn notice_close() -> Seq<char> {
    "\n</Notice>\n\n"@
}

/// The session after inserting a notice: the `Notice` import ensured, the selection
/// wrapped in the notice, and the status line naming its title.
pub open spec fn with_notice(
    s: EditSessionV,
    content_dir: Seq<char>,
    collection: Seq<char>,
    file: Seq<char>,
    notice_type: Seq<char>,
    title: Seq<char>,
) -> EditSessionV {
    let s1 = with_import(s, component_import("Notice"@, content_dir, collection, file));
    let s2 = replaced(s1, notice_open(notice_type, title), notice_close());
    EditSessionV { status_message: "✅ Aviso '"@ + title + "' insertado"@, ..s2 }
}

/// The call-to-action block inserted by the toolbar.
pub open spec fn cta_block() -> Seq<char> {
    "\n\n<CTABox\n  title=\"Título\"\n  description=\"Descripción\"\n  buttonText=\"Botón\"\n  buttonHref=\"/\"\n/>\n\n"@
}

/// The session after inserting a call-to-action block with its import.
pub open spec fn with_cta(s: EditSessionV, content_dir: Seq<char>, collection: Seq<char>, file: Seq<char>) -> EditSessionV {
    replaced(with_import(s, component_import("CTABox"@, content_dir, collection, file)), cta_block(), seq![])
}

/// Room for the cursor arithmetic of an edit that adds `extra` characters.
pub open spec fn has_room(s: EditSessionV, extra: nat) -> bool {
    sel_high(s.selection, s.body.len()) + s.body.len() + extra <= usize::MAX
}

/// Adding an import keeps the room needed by a later edit, given the statement's
/// length twice over.
pub proof fn lemma_with_import_room(s: EditSessionV, stmt: Seq<char>, extra: nat)
    requires
        has_room(s, extra + 2 * (stmt.len() + 1)),
    ensures
        has_room(with_import(s, stmt), extra),
{
}

/// The import statement of the site component `name` (such as `Notice`) for the
/// document `content_dir/collection/file` (see `component_import`).
pub fn import_statement(name: &str, content_dir: &str, collection: &str, file: &str) -> (r: String)
    ensures
        r@ == component_import(name@, content_dir@, collection@, file@),
{
    string_of(&component_import_vec(name, content_dir, collection, file))
}

/// The text of a component import (see `component_import`).
fn component_import_vec(name: &str, content_dir: &str, collection: &str, file: &str) -> (r: Vec<char>)
    ensures
        r@ == component_import(name@, content_dir@, collection@, file@),
{
    let mut target = chars_of("src/components/");
    append_vec(&mut target, &chars_of(name));
    append_vec(&mut target, &chars_of(".astro"));
    let rel = crate::paths::calculate_rel_path(content_dir, collection, file, string_of(&target).as_str());
    let mut r = chars_of("import ");
    append_vec(&mut r, &chars_of(name));
    append_vec(&mut r, &chars_of(" from \""));
    append_vec(&mut r, &chars_of(rel.as_str()));
    append_vec(&mut r, &chars_of("\";"));
    r
}

impl EditSession {
    /// Inserts `t` at the cursor, replacing the selection.
    pub fn insert_at_cursor(&mut self, t: &str)
        requires
            has_room(old(self)@, t@.len() + 32),
        ensures
            final(self)@ == inserted(old(self)@, t@),
    {
        proof {
            reveal_strlit("");
            assert(""@ =~= Seq::<char>::empty());
        }
        self.insert_replacement(t, "");
    }

    /// Adds `stmt` at the top of the body unless the body already imports it (see
    /// `with_import`).
    pub fn ensure_import(&mut self, stmt: &str)
        requires
            sel_high(old(self).selection, 0) + stmt@.len() + 1 <= usize::MAX,
        ensures
            final(self)@ == with_import(old(self)@, stmt@),
    {
        let sv = chars_of(stmt);
        let bv = chars_of(self.body.as_str());
        let marker = if contains_vec(&sv, &chars_of("import Notice from")) {
            chars_of("import Notice from")
        } else if contains_vec(&sv, &chars_of("import CTABox from")) {
            chars_of("import CTABox from")
        } else if contains_vec(&sv, &chars_of("astro:assets")) {
            chars_of("import { Image }")
        } else {
            sv.clone()
        };
        if !contains_vec(&bv, &marker) {
            let mut nb = sv.clone();
            nb.push('\n');
            append_vec(&mut nb, &bv);
            assert(nb@ =~= sv@ + seq!['\n'] + bv@);
            self.body = string_of(&nb);
            let shift = sv.len() + 1;
            match self.selection {
                Some((a, b)) => {
                    let sel = (a + shift, b + shift);
                    self.selection = Some(sel);
                    self.pending_selection = Some(sel);
                },
                None => {},
            }
            self.status_message = String::from_str("📦 Componente importado");
        }
    }

    /// Inserts a notice of the given type and title around the selection, importing the
    /// `Notice` component for the document `content_dir/collection/file` (see
    /// `with_notice`).
    pub fn insert_notice(
        &mut self,
        content_dir: &str,
        collection: &str,
        file: &str,
        notice_type: &str,
        title: &str,
    )
        requires
            has_room(
                old(self)@,
                2 * (component_import("Notice"@, content_dir@, collection@, file@).len() + 1)
                    + notice_open(notice_type@, title@).len() + notice_close().len() + 32,
            ),
        ensures
            final(self)@ == with_notice(old(self)@, content_dir@, collection@, file@, notice_type@, title@),
    {
        let ghost s0 = self@;
        let stmt = component_import_vec("Notice", content_dir, collection, file);
        proof {
            reveal_strlit("Notice");
        }
        proof {
            lemma_with_import_room(
                s0,
                stmt@,
                notice_open(notice_type@, title@).len() + notice_close().len() + 32,
            );
        }
        self.ensure_import(string_of(&stmt).as_str());
        let mut open = chars_of("\n\n<Notice type=\"");
        append_vec(&mut open, &chars_of(notice_type));
        append_vec(&mut open, &chars_of("\" title=\""));
        append_vec(&mut open, &chars_of(title));
        append_vec(&mut open, &chars_of("\">\n"));
        self.insert_replacement(string_of(&open).as_str(), "\n</Notice>\n\n");
        let mut msg = chars_of("✅ Aviso '");
        append_vec(&mut msg, &chars_of(title));
        append_vec(&mut msg, &chars_of("' insertado"));
        self.status_message = string_of(&msg);
    }

    /// Inserts a call-to-action block at the cursor, importing the `CTABox` component
    /// (see `with_cta`).
    pub fn insert_cta(&mut self, content_dir: &str, collection: &str, file: &str)
        requires
            has_room(
                old(self)@,
                2 * (component_import("CTABox"@, content_dir@, collection@, file@).len() + 1)
                    + cta_block().len() + 32,
            ),
        ensures
            final(self)@ == with_cta(old(self)@, content_dir@, collection@, file@),
    {
        let ghost s0 = self@;
        let stmt = component_import_vec("CTABox", content_dir, collection, file);
        proof {
            lemma_with_import_room(s0, stmt@, cta_block().len() + 32);
            reveal_strlit("");
            assert(""@ =~= Seq::<char>::empty());
        }
        self.ensure_import(string_of(&stmt).as_str());
        self.insert_replacement(
            "\n\n<CTABox\n  title=\"Título\"\n  description=\"Descripción\"\n  buttonText=\"Botón\"\n  buttonHref=\"/\"\n/>\n\n",
            "",
        );
    }
}

} // verus!

verus! {

/// The position of the last `.` in `s`.
pub open spec fn last_dot(s: Seq<char>) -> Option<int>
    decreases s.len(),
{
    if s.len() == 0 {
        None
    } else if s.last() == '.' {
        Some(s.len() - 1)
    } else {
        last_dot(s.drop_last())
    }
}

/// A component that names a file or directory (not the root, `.` or `..`).
pub open spec fn is_normal_component(c: Seq<char>) -> bool {
    c != "/"@ && c != "."@ && c != ".."@
}

/// `Path::file_name`: the last component, when it names something.
pub open spec fn path_file_name(p: Seq<char>) -> Option<Seq<char>> {
    let cs = crate::paths::components(p);
    if cs.len() > 0 && is_normal_component(cs.last()) {
        Some(cs.last())
    } else {
        None
    }
}

/// `Path::file_stem` of a file name: the part before its last `.`, or the whole name
/// when it has no `.` but a leading one.
pub open spec fn stem_of(name: Seq<char>) -> Seq<char> {
    match last_dot(name) {
        Some(i) => if i > 0 {
            name.take(i)
        } else {
            name
        },
        None => name,
    }
}

/// The identifier part of an image import: the file stem with `-` and spaces turned
/// into `_`.
pub open spec fn image_ident(name: Seq<char>) -> Seq<char> {
    text::replace_seq(text::replace_seq(stem_of(name), "-"@, "_"@), " "@, "_"@)
}

/// The import of an image under the identifier `img_<ident>`.
pub open spec fn image_import(ident: Seq<char>, rel: Seq<char>) -> Seq<char> {
    "import img_"@ + ident + " from \""@ + rel + "\";"@
}

/// The import of Astro's `Image` component.
pub open spec fn astro_image_import() -> Seq<char> {
    "import { Image } from \"astro:assets\";"@
}

/// The figure block that shows an imported image.
pub open spec fn image_block(ident: Seq<char>, file_name: Seq<char>) -> Seq<char> {
    "\n\n<div class=\"my-12 flex flex-col items-center\">\n  <Image\n    src={img_"@ + ident
        + "}\n    alt=\""@ + file_name
        + "\"\n    class=\"rounded-xl shadow-lg w-full max-w-3xl\"\n  />\n  <p class=\"text-center text-sm text-slate-500 mt-3 italic\">\n    Descripción de la imagen\n  </p>\n</div>\n\n"@
}

/// Where an image at `repo_rel` (relative to the repository) is imported from: relative
/// to the open document when there is one, the repository path otherwise.
pub open spec fn image_source(
    content_dir: Seq<char>,
    collection: Option<Seq<char>>,
    file: Option<Seq<char>>,
    repo_rel: Seq<char>,
) -> Seq<char> {
    match (collection, file) {
        (Some(c), Some(f)) => crate::paths::rel_path_spec(content_dir, c, f, repo_rel),
        _ => repo_rel,
    }
}

/// The session after inserting the image copied to `repo_rel`: its import and the
/// `Image` import ensured, the figure block inserted at the cursor, and the status line
/// saying so.
pub open spec fn with_image(
    s: EditSessionV,
    content_dir: Seq<char>,
    collection: Option<Seq<char>>,
    file: Option<Seq<char>>,
    repo_rel: Seq<char>,
) -> EditSessionV {
    let name = path_file_name(repo_rel).unwrap();
    let ident = image_ident(name);
    let s1 = with_import(s, image_import(ident, image_source(content_dir, collection, file, repo_rel)));
    let s2 = with_import(s1, astro_image_import());
    let s3 = inserted(s2, image_block(ident, name));
    EditSessionV { status_message: "🖼 Imagen insertada con componente Astro"@, ..s3 }
}

/// The characters of an optional string.
pub open spec fn opt_chars(o: Option<&str>) -> Option<Seq<char>> {
    match o {
        Some(s) => Some(s@),
        None => None,
    }
}

/// The file name of a path (see `path_file_name`).
fn path_file_name_vec(p: &Vec<char>) -> (r: Option<Vec<char>>)
    ensures
        match r {
            Some(v) => path_file_name(p@) == Some(v@),
            None => path_file_name(p@) is None,
        },
{
    let cs = crate::paths::components_vec(p);
    if cs.len() == 0 {
        return None;
    }
    let last = &cs[cs.len() - 1];
    assert(text::seqs_of(cs@).last() == last@);
    if crate::text::vec_eq(last, &chars_of("/")) || crate::text::vec_eq(last, &chars_of("."))
        || crate::text::vec_eq(last, &chars_of("..")) {
        None
    } else {
        Some(last.clone())
    }
}

/// The identifier part of an image import (see `image_ident`).
fn image_ident_vec(name: &Vec<char>) -> (r: Vec<char>)
    ensures
        r@ == image_ident(name@),
{
    let mut i = name.len();
    assert(name@.take(name.len() as int) =~= name@);
    while i > 0 && name[i - 1] != '.'
        invariant
            i <= name.len(),
            last_dot(name@) == last_dot(name@.take(i as int)),
        decreases i,
    {
        assert(name@.take(i as int).drop_last() =~= name@.take(i - 1));
        i -= 1;
    }
    proof {
        assert(name@.take(name.len() as int) =~= name@);
    }
    let stem = if i > 1 {
        assert(name@.take(i as int).drop_last() =~= name@.take(i - 1));
        slice_vec(name, 0, i - 1)
    } else {
        assert(i == 1 ==> last_dot(name@) == Some(0int));
        name.clone()
    };
    proof {
        reveal_strlit("-");
        reveal_strlit(" ");
    }
    let a = crate::text::replace_vec(&stem, &chars_of("-"), &chars_of("_"));
    crate::text::replace_vec(&a, &chars_of(" "), &chars_of("_"))
}

impl EditSession {
    /// Inserts the image copied to `repo_rel_img_path` (relative to the repository) at
    /// the cursor, with its import and that of `Image` (see `with_image`);
    /// `collection` and `file` locate the open document.
    pub fn insert_image(
        &mut self,
        content_dir: &str,
        collection: Option<&str>,
        file: Option<&str>,
        repo_rel_img_path: &str,
    )
        requires
            path_file_name(repo_rel_img_path@) is Some,
            has_room(
                old(self)@,
                2 * (image_import(
                    image_ident(path_file_name(repo_rel_img_path@).unwrap()),
                    image_source(content_dir@, opt_chars(collection), opt_chars(file), repo_rel_img_path@),
                ).len() + 1) + 2 * (astro_image_import().len() + 1) + image_block(
                    image_ident(path_file_name(repo_rel_img_path@).unwrap()),
                    path_file_name(repo_rel_img_path@).unwrap(),
                ).len() + 32,
            ),
        ensures
            final(self)@ == with_image(
                old(self)@,
                content_dir@,
                opt_chars(collection),
                opt_chars(file),
                repo_rel_img_path@,
            ),
    {
        let ghost s0 = self@;
        let rv = chars_of(repo_rel_img_path);
        let name = match path_file_name_vec(&rv) {
            Some(n) => n,
            None => {
                return;
            },
        };
        let ident = image_ident_vec(&name);
        let rel = match (collection, file) {
            (Some(c), Some(f)) => chars_of(crate::paths::calculate_rel_path(content_dir, c, f, repo_rel_img_path).as_str()),
            _ => rv.clone(),
        };
        let mut imp = chars_of("import img_");
        append_vec(&mut imp, &ident);
        append_vec(&mut imp, &chars_of(" from \""));
        append_vec(&mut imp, &rel);
        append_vec(&mut imp, &chars_of("\";"));
        let mut block = chars_of("\n\n<div class=\"my-12 flex flex-col items-center\">\n  <Image\n    src={img_");
        append_vec(&mut block, &ident);
        append_vec(&mut block, &chars_of("}\n    alt=\""));
        append_vec(&mut block, &name);
        append_vec(
            &mut block,
            &chars_of(
                "\"\n    class=\"rounded-xl shadow-lg w-full max-w-3xl\"\n  />\n  <p class=\"text-center text-sm text-slate-500 mt-3 italic\">\n    Descripción de la imagen\n  </p>\n</div>\n\n",
            ),
        );
        let ghost extra = 2 * (astro_image_import().len() + 1) + block@.len() + 32;
        proof {
            lemma_with_import_room(s0, imp@, extra);
        }
        self.ensure_import(string_of(&imp).as_str());
        let ghost s1 = self@;
        proof {
            lemma_with_import_room(s1, astro_image_import(), block@.len() + 32);
        }
        self.ensure_import("import { Image } from \"astro:assets\";");
        self.insert_at_cursor(string_of(&block).as_str());
        self.status_message = String::from_str("🖼 Imagen insertada con componente Astro");
    }
}

} // verus!

verus! {

/// The number of `/`-separated pieces of a file name.
pub open spec fn path_depth(file: Seq<char>) -> nat {
    crate::paths::split_char(file, '/').len()
}

/// The `../` prefix that leads from a file `file` of a collection back to the
/// repository root: one more than its depth.
pub open spec fn needed_dots(file: Seq<char>) -> Seq<char> {
    crate::paths::ups(path_depth(file) + 1)
}

/// The body with every relative reference to `assets/` (one or more `../`, or `./`,
/// followed by `assets/`) pointing through `dots`, rewritten in one left-to-right pass
/// (see `asset_refs::fix_refs`).
pub open spec fn fix_body_assets(body: Seq<char>, dots: Seq<char>) -> Seq<char> {
    asset_refs::fix_refs(body, true, dots + asset_refs::assets_seq())
}

/// Every asset reference of the body already points through `dots`.
pub open spec fn body_assets_point_through(body: Seq<char>, dots: Seq<char>) -> bool {
    asset_refs::refs_read(body, true, dots + asset_refs::assets_seq())
}

/// A line that imports `comp` with a quoted path, rewritten to import it from
/// `dots` + `components/`; other lines unchanged.
pub open spec fn fixed_import_line(line: Seq<char>, comp: Seq<char>, dots: Seq<char>) -> Seq<char> {
    if text::contains_seq(line, "import"@) && text::contains_seq(line, comp) {
        match text::find_seq(line, seq!['"']) {
            Some(start) => if text::contains_seq(line.skip(start + 1), seq!['"']) {
                let cut = match text::find_seq(line, "from"@) {
                    Some(f) => f,
                    None => line.len() as int,
                };
                line.take(cut) + "from \""@ + dots + "components/"@ + comp + "\";"@
            } else {
                line
            },
            None => line,
        }
    } else {
        line
    }
}

/// Every line of the body passed through `fixed_import_line`, joined with `\n`.
pub open spec fn fix_component_imports(body: Seq<char>, comp: Seq<char>, dots: Seq<char>) -> Seq<char> {
    text::join_seq(text::lines_seq(body).map_values(|l: Seq<char>| fixed_import_line(l, comp, dots)), "\n"@)
}

/// The body after recalculating its asset paths and its `Notice` and `CTABox` imports
/// for a document at `file`.
pub open spec fn fixed_paths_body(body: Seq<char>, file: Seq<char>) -> Seq<char> {
    let dots = needed_dots(file);
    fix_component_imports(
        fix_component_imports(fix_body_assets(body, dots), "Notice.astro"@, dots),
        "CTABox.astro"@,
        dots,
    )
}

/// One import line rewritten (see `fixed_import_line`).
fn fixed_import_line_vec(line: &Vec<char>, comp: &Vec<char>, dots: &Vec<char>) -> (r: Vec<char>)
    ensures
        r@ == fixed_import_line(line@, comp@, dots@),
{
    if contains_vec(line, &chars_of("import")) && contains_vec(line, comp) {
        let q = chars_of("\"");
        proof {
            reveal_strlit("\"");
            assert(q@ =~= seq!['"']);
        }
        let n = line.len();
        match crate::text::find_vec(line, &q) {
            Some(start) => {
                proof {
                    text::lemma_find_seq(line@, q@);
                    assert(q@.len() == 1);
                    assert(start + 1 <= line@.len());
                }
                let tail = slice_vec(line, start + 1, n);
                assert(tail@ =~= line@.skip(start + 1));
                if contains_vec(&tail, &q) {
                    let cut = match crate::text::find_vec(line, &chars_of("from")) {
                        Some(f) => {
                            proof {
                                text::lemma_find_seq(line@, "from"@);
                            }
                            f
                        },
                        None => line.len(),
                    };
                    let mut r = slice_vec(line, 0, cut);
                    assert(r@ =~= line@.take(cut as int));
                    append_vec(&mut r, &chars_of("from \""));
                    append_vec(&mut r, dots);
                    append_vec(&mut r, &chars_of("components/"));
                    append_vec(&mut r, comp);
                    append_vec(&mut r, &chars_of("\";"));
                    r
                } else {
                    line.clone()
                }
            },
            None => line.clone(),
        }
    } else {
        line.clone()
    }
}

/// The body with the import lines of `comp` rewritten (see `fix_component_imports`).
fn fix_component_imports_vec(body: &Vec<char>, comp: &Vec<char>, dots: &Vec<char>) -> (r: Vec<char>)
    ensures
        r@ == fix_component_imports(body@, comp@, dots@),
{
    let ls = crate::text::lines_vec(body);
    let mut out: Vec<Vec<char>> = Vec::new();
    let mut i: usize = 0;
    while i < ls.len()
        invariant
            i <= ls.len(),
            out.len() == i,
            forall|j: int| 0 <= j < i ==> #[trigger] out@[j]@ == fixed_import_line(ls@[j]@, comp@, dots@),
        decreases ls.len() - i,
    {
        out.push(fixed_import_line_vec(&ls[i], comp, dots));
        i += 1;
    }
    assert(text::seqs_of(out@) =~= text::lines_seq(body@).map_values(
        |l: Seq<char>| fixed_import_line(l, comp@, dots@),
    ));
    crate::text::join_vec(&out, &chars_of("\n"))
}

/// Recalculates the asset and component paths of the open document `file` (relative to
/// its collection): the frontmatter's `assets/` strings and the body's asset references
/// and component imports now lead back to the repository root from the file's folder.
pub fn fix_all_image_paths(frontmatter: &mut crate::yaml::YamlMapping, session: &mut EditSession, file: &str)
    ensures
        final(frontmatter)@ == content::fix_dots_entries(old(frontmatter)@, needed_dots(file@)),
        final(session)@ == (EditSessionV {
            body: fixed_paths_body(old(session)@.body, file@),
            status_message: "🔧 Rutas de activos y componentes recalculadas"@,
            ..old(session)@
        }),
{
    let pieces = crate::paths::split_char_vec(&chars_of(file), '/');
    let mut dots = chars_of("../");
    let mut i: usize = 0;
    proof {
        reveal_strlit("../");
        assert(crate::paths::ups(0) =~= Seq::<char>::empty());
        assert(crate::paths::ups(1) =~= "../"@);
    }
    while i < pieces.len()
        invariant
            i <= pieces.len(),
            dots@ == crate::paths::ups((i + 1) as nat),
        decreases pieces.len() - i,
    {
        dots.push('.');
        dots.push('.');
        dots.push('/');
        proof {
            reveal_strlit("../");
        }
        assert(dots@ =~= crate::paths::ups((i + 1) as nat) + "../"@);
        i += 1;
    }
    assert(text::seqs_of(pieces@).len() == pieces@.len());
    let fixed = content::fixed_dots(&crate::yaml::YamlValue::Mapping(frontmatter.copy()), &dots);
    match fixed {
        crate::yaml::YamlValue::Mapping(m) => {
            *frontmatter = m;
        },
        _ => {},
    }
    let mut target = dots.clone();
    append_vec(&mut target, &chars_of("assets/"));
    proof {
        reveal_strlit("assets/");
    }
    assert(target@ =~= dots@ + asset_refs::assets_seq());
    let b0 = chars_of(session.body.as_str());
    let b4 = asset_refs::fix_refs_vec(&b0, &target);
    let b5 = fix_component_imports_vec(&b4, &chars_of("Notice.astro"), &dots);
    let b6 = fix_component_imports_vec(&b5, &chars_of("CTABox.astro"), &dots);
    session.body = string_of(&b6);
    session.status_message = String::from_str("🔧 Rutas de activos y componentes recalculadas");
}

/// Repairing the asset references of a body twice gives what repairing once does.
pub proof fn law_body_assets_idempotent(body: Seq<char>, file: Seq<char>)
    ensures
        fix_body_assets(fix_body_assets(body, needed_dots(file)), needed_dots(file)) == fix_body_assets(
            body,
            needed_dots(file),
        ),
{
    asset_refs::lemma_fix_refs_twice(body, path_depth(file) + 1);
}

/// A body whose asset references already point through `dots` comes back unchanged.
pub proof fn law_body_assets_right_unchanged(body: Seq<char>, dots: Seq<char>)
    requires
        body_assets_point_through(body, dots),
    ensures
        fix_body_assets(body, dots) == body,
{
    asset_refs::lemma_fix_refs_keeps_read(body, dots + asset_refs::assets_seq());
}

} // verus!

verus! {

/// The buttons pressed on the editor toolbar during one frame.
pub struct ToolbarActions {
    pub insert_h1: bool,
    pub insert_h2: bool,
    pub insert_h3: bool,
    pub insert_bold: bool,
    pub insert_italic: bool,
    pub insert_link: bool,
    pub insert_color: bool,
    pub insert_image: bool,
    pub insert_table: bool,
    pub insert_code: bool,
    pub insert_youtube: bool,
    pub insert_cta: bool,
    pub insert_notice_note: bool,
    pub insert_notice_tip: bool,
    pub insert_notice_info: bool,
    pub insert_notice_warning: bool,
    pub insert_notice_danger: bool,
    pub insert_notice_success: bool,
    pub convert_to_mdx: bool,
    pub toggle_preview: bool,
    pub toggle_focus_mode: bool,
    pub toggle_toolbar: bool,
}

impl Default for ToolbarActions {
    fn default() -> (r: ToolbarActions)
        ensures
            r == no_actions(),
    {
        ToolbarActions {
            insert_h1: false,
            insert_h2: false,
            insert_h3: false,
            insert_bold: false,
            insert_italic: false,
            insert_link: false,
            insert_color: false,
            insert_image: false,
            insert_table: false,
            insert_code: false,
            insert_youtube: false,
            insert_cta: false,
            insert_notice_note: false,
            insert_notice_tip: false,
            insert_notice_info: false,
            insert_notice_warning: false,
            insert_notice_danger: false,
            insert_notice_success: false,
            convert_to_mdx: false,
            toggle_preview: false,
            toggle_focus_mode: false,
            toggle_toolbar: false,
        }
    }
}

/// No button pressed.
pub open spec fn no_actions() -> ToolbarActions {
    ToolbarActions {
        insert_h1: false,
        insert_h2: false,
        insert_h3: false,
        insert_bold: false,
        insert_italic: false,
        insert_link: false,
        insert_color: false,
        insert_image: false,
        insert_table: false,
        insert_code: false,
        insert_youtube: false,
        insert_cta: false,
        insert_notice_note: false,
        insert_notice_tip: false,
        insert_notice_info: false,
        insert_notice_warning: false,
        insert_notice_danger: false,
        insert_notice_success: false,
        convert_to_mdx: false,
        toggle_preview: false,
        toggle_focus_mode: false,
        toggle_toolbar: false,
    }
}

/// One toolbar command, in the order in which a frame's presses are carried out.
#[derive(Clone, Copy, Debug, PartialEq, Eq, Structural)]
pub enum ToolbarCommand {
    ConvertToMdx,
    InsertH1,
    InsertH2,
    InsertH3,
    Bold,
    Italic,
    Link,
    Color,
    Image,
    Table,
    Code,
    Youtube,
    Cta,
    NoticeNote,
    NoticeTip,
    NoticeInfo,
    NoticeWarning,
    NoticeDanger,
    NoticeSuccess,
}

/// `c` when `b` holds, nothing otherwise.
pub open spec fn when(b: bool, c: ToolbarCommand) -> Seq<ToolbarCommand> {
    if b {
        seq![c]
    } else {
        seq![]
    }
}

/// Each press of a frame paired with its command, in the order they are carried out:
/// conversion to `.mdx` first, then the headings, formatting, media and blocks, then
/// the notices. The view toggles are not commands.
pub open spec fn presses(a: ToolbarActions) -> Seq<(bool, ToolbarCommand)> {
    seq![
        (a.convert_to_mdx, ToolbarCommand::ConvertToMdx),
        (a.insert_h1, ToolbarCommand::InsertH1),
        (a.insert_h2, ToolbarCommand::InsertH2),
        (a.insert_h3, ToolbarCommand::InsertH3),
        (a.insert_bold, ToolbarCommand::Bold),
        (a.insert_italic, ToolbarCommand::Italic),
        (a.insert_link, ToolbarCommand::Link),
        (a.insert_color, ToolbarCommand::Color),
        (a.insert_image, ToolbarCommand::Image),
        (a.insert_table, ToolbarCommand::Table),
        (a.insert_code, ToolbarCommand::Code),
        (a.insert_youtube, ToolbarCommand::Youtube),
        (a.insert_cta, ToolbarCommand::Cta),
        (a.insert_notice_note, ToolbarCommand::NoticeNote),
        (a.insert_notice_tip, ToolbarCommand::NoticeTip),
        (a.insert_notice_info, ToolbarCommand::NoticeInfo),
        (a.insert_notice_warning, ToolbarCommand::NoticeWarning),
        (a.insert_notice_danger, ToolbarCommand::NoticeDanger),
        (a.insert_notice_success, ToolbarCommand::NoticeSuccess),
    ]
}

/// The commands whose button was pressed, in order.
pub open spec fn pressed(ps: Seq<(bool, ToolbarCommand)>) -> Seq<ToolbarCommand>
    decreases ps.len(),
{
    if ps.len() == 0 {
        seq![]
    } else {
        pressed(ps.drop_last()) + when(ps.last().0, ps.last().1)
    }
}

/// The commands of a frame's presses (see `presses`).
pub open spec fn commands_of(a: ToolbarActions) -> Seq<ToolbarCommand> {
    pressed(presses(a))
}

/// The commands of a frame's presses (see `commands_of`).
pub fn toolbar_commands(a: &ToolbarActions) -> (r: Vec<ToolbarCommand>)
    ensures
        r@ == commands_of(*a),
{
    let ps = vec![
        (a.convert_to_mdx, ToolbarCommand::ConvertToMdx),
        (a.insert_h1, ToolbarCommand::InsertH1),
        (a.insert_h2, ToolbarCommand::InsertH2),
        (a.insert_h3, ToolbarCommand::InsertH3),
        (a.insert_bold, ToolbarCommand::Bold),
        (a.insert_italic, ToolbarCommand::Italic),
        (a.insert_link, ToolbarCommand::Link),
        (a.insert_color, ToolbarCommand::Color),
        (a.insert_image, ToolbarCommand::Image),
        (a.insert_table, ToolbarCommand::Table),
        (a.insert_code, ToolbarCommand::Code),
        (a.insert_youtube, ToolbarCommand::Youtube),
        (a.insert_cta, ToolbarCommand::Cta),
        (a.insert_notice_note, ToolbarCommand::NoticeNote),
        (a.insert_notice_tip, ToolbarCommand::NoticeTip),
        (a.insert_notice_info, ToolbarCommand::NoticeInfo),
        (a.insert_notice_warning, ToolbarCommand::NoticeWarning),
        (a.insert_notice_danger, ToolbarCommand::NoticeDanger),
        (a.insert_notice_success, ToolbarCommand::NoticeSuccess),
    ];
    assert(ps@ =~= presses(*a));
    let mut v: Vec<ToolbarCommand> = Vec::new();
    let mut i: usize = 0;
    while i < ps.len()
        invariant
            i <= ps.len(),
            v@ == pressed(ps@.take(i as int)),
        decreases ps.len() - i,
    {
        assert(ps@.take(i + 1).drop_last() =~= ps@.take(i as int));
        let (b, c) = ps[i];
        if b {
            v.push(c);
        }
        assert(v@ =~= pressed(ps@.take(i as int)) + when(b, c));
        i += 1;
    }
    assert(ps@.take(ps.len() as int) =~= ps@);
    v
}

/// A command that only edits the body (the conversion to `.mdx` and the image
/// insertion need the disk first).
pub open spec fn is_text_command(c: ToolbarCommand) -> bool {
    c != ToolbarCommand::ConvertToMdx && c != ToolbarCommand::Image
}

/// The opening text, closing text, or notice type and title of a text command.
pub open spec fn color_open() -> Seq<char> {
    "<span style={{color: '#e74c3c'}}>\n"@
}

/// The table inserted by the toolbar.
pub open spec fn table_block() -> Seq<char> {
    "\n\n| Columna 1 | Columna 2 |\n| :--- | :--- |\n| Dato 1 | Dato 2 |\n\n"@
}

/// The video embed inserted by the toolbar.
pub open spec fn youtube_block() -> Seq<char> {
    "\n\n<lite-youtube videoid=\"ID_AQUI\" playlabel=\"Play\"></lite-youtube>\n\n"@
}

/// The type and title of the notice a command inserts.
pub open spec fn notice_of(c: ToolbarCommand) -> (Seq<char>, Seq<char>) {
    match c {
        ToolbarCommand::NoticeNote => ("note"@, "Nota"@),
        ToolbarCommand::NoticeTip => ("tip"@, "Tip"@),
        ToolbarCommand::NoticeInfo => ("info"@, "Info"@),
        ToolbarCommand::NoticeWarning => ("warning"@, "Aviso"@),
        ToolbarCommand::NoticeDanger => ("danger"@, "Peligro"@),
        _ => ("success"@, "Éxito"@),
    }
}

/// The session after a text command on the document `content_dir/collection/file`.
pub open spec fn after_command(
    s: EditSessionV,
    c: ToolbarCommand,
    content_dir: Seq<char>,
    collection: Seq<char>,
    file: Seq<char>,
) -> EditSessionV {
    match c {
        ToolbarCommand::InsertH1 => inserted(s, "\n\n# "@),
        ToolbarCommand::InsertH2 => inserted(s, "\n\n## "@),
        ToolbarCommand::InsertH3 => inserted(s, "\n\n### "@),
        ToolbarCommand::Bold => replaced(s, "**"@, "**"@),
        ToolbarCommand::Italic => replaced(s, "*"@, "*"@),
        ToolbarCommand::Link => replaced(s, "["@, "](url)"@),
        ToolbarCommand::Color => replaced(s, color_open(), "\n</span>"@),
        ToolbarCommand::Table => inserted(s, table_block()),
        ToolbarCommand::Code => replaced(s, "\n```rust\n"@, "\n```\n"@),
        ToolbarCommand::Youtube => inserted(s, youtube_block()),
        ToolbarCommand::Cta => with_cta(s, content_dir, collection, file),
        ToolbarCommand::ConvertToMdx => s,
        ToolbarCommand::Image => s,
        _ => with_notice(s, content_dir, collection, file, notice_of(c).0, notice_of(c).1),
    }
}

/// The characters a text command may add, for the cursor arithmetic.
pub open spec fn command_room(c: ToolbarCommand, content_dir: Seq<char>, collection: Seq<char>, file: Seq<char>) -> nat {
    match c {
        ToolbarCommand::Cta => 2 * (component_import("CTABox"@, content_dir, collection, file).len() + 1)
            + cta_block().len() + 32,
        ToolbarCommand::NoticeNote | ToolbarCommand::NoticeTip | ToolbarCommand::NoticeInfo
        | ToolbarCommand::NoticeWarning | ToolbarCommand::NoticeDanger | ToolbarCommand::NoticeSuccess => 2
            * (component_import("Notice"@, content_dir, collection, file).len() + 1) + notice_open(
            notice_of(c).0,
            notice_of(c).1,
        ).len() + notice_close().len() + 32,
        _ => table_block().len() + youtube_block().len() + color_open().len() + 64,
    }
}

impl EditSession {
    /// Carries out a text command on the document `content_dir/collection/file` (see
    /// `after_command`).
    pub fn apply_command(&mut self, c: ToolbarCommand, content_dir: &str, collection: &str, file: &str)
        requires
            is_text_command(c),
            has_room(old(self)@, command_room(c, content_dir@, collection@, file@)),
        ensures
            final(self)@ == after_command(old(self)@, c, content_dir@, collection@, file@),
    {
        proof {
            reveal_strlit("\n\n# ");
            reveal_strlit("\n\n## ");
            reveal_strlit("\n\n### ");
            reveal_strlit("**");
            reveal_strlit("*");
            reveal_strlit("[");
            reveal_strlit("](url)");
            reveal_strlit("\n</span>");
            reveal_strlit("\n```rust\n");
            reveal_strlit("\n```\n");
            reveal_strlit("<span style={{color: '#e74c3c'}}>\n");
            reveal_strlit("\n\n| Columna 1 | Columna 2 |\n| :--- | :--- |\n| Dato 1 | Dato 2 |\n\n");
            reveal_strlit("\n\n<lite-youtube videoid=\"ID_AQUI\" playlabel=\"Play\"></lite-youtube>\n\n");
            reveal_strlit("");
        }
        match c {
            ToolbarCommand::InsertH1 => self.insert_at_cursor("\n\n# "),
            ToolbarCommand::InsertH2 => self.insert_at_cursor("\n\n## "),
            ToolbarCommand::InsertH3 => self.insert_at_cursor("\n\n### "),
            ToolbarCommand::Bold => self.insert_replacement("**", "**"),
            ToolbarCommand::Italic => self.insert_replacement("*", "*"),
            ToolbarCommand::Link => self.insert_replacement("[", "](url)"),
            ToolbarCommand::Color => self.insert_replacement("<span style={{color: '#e74c3c'}}>\n", "\n</span>"),
            ToolbarCommand::Table => self.insert_at_cursor(
                "\n\n| Columna 1 | Columna 2 |\n| :--- | :--- |\n| Dato 1 | Dato 2 |\n\n",
            ),
            ToolbarCommand::Code => self.insert_replacement("\n```rust\n", "\n```\n"),
            ToolbarCommand::Youtube => self.insert_at_cursor(
                "\n\n<lite-youtube videoid=\"ID_AQUI\" playlabel=\"Play\"></lite-youtube>\n\n",
            ),
            ToolbarCommand::Cta => self.insert_cta(content_dir, collection, file),
            ToolbarCommand::NoticeNote => self.insert_notice(content_dir, collection, file, "note", "Nota"),
            ToolbarCommand::NoticeTip => self.insert_notice(content_dir, collection, file, "tip", "Tip"),
            ToolbarCommand::NoticeInfo => self.insert_notice(content_dir, collection, file, "info", "Info"),
            ToolbarCommand::NoticeWarning => self.insert_notice(content_dir, collection, file, "warning", "Aviso"),
            ToolbarCommand::NoticeDanger => self.insert_notice(content_dir, collection, file, "danger", "Peligro"),
            ToolbarCommand::NoticeSuccess => self.insert_notice(content_dir, collection, file, "success", "Éxito"),
            ToolbarCommand::ConvertToMdx => {},
            ToolbarCommand::Image => {},
        }
    }
}

} // verus!

verus! {

/// Bold and italic markers are inserted as they are, whatever precedes them.
pub proof fn lemma_inline_markers_unadjusted(prefix: Seq<char>, before: Seq<char>, after: Seq<char>)
    requires
        is_inline_format(before, after),
    ensures
        adjusted_before(prefix, before) == before,
        placeholder_for(before, after) == Seq::<char>::empty(),
{
    reveal_strlit("**");
    reveal_strlit("*");
    reveal_strlit("\n\n");
    reveal_strlit("<Notice");
    reveal_strlit("```");
    reveal_strlit("<pre");
    reveal_strlit("[");
    assert(!text::contains_seq(before, seq!['<'])) by {
        if text::contains_seq(before, seq!['<']) {
            let j = choose|j: int| text::occurs_at(before, seq!['<'], j);
            text::lemma_occurs_char(before, '<', j);
        }
    }
    assert(!text::contains_seq(before, seq!['|'])) by {
        if text::contains_seq(before, seq!['|']) {
            let j = choose|j: int| text::occurs_at(before, seq!['|'], j);
            text::lemma_occurs_char(before, '|', j);
        }
    }
    assert(!text::contains_seq(before, "<Notice"@)) by {
        if text::contains_seq(before, "<Notice"@) {
            let j = choose|j: int| text::occurs_at(before, "<Notice"@, j);
            assert(before.subrange(j, j + 7).len() == 7);
        }
    }
    assert(!text::contains_seq(before, "```"@)) by {
        if text::contains_seq(before, "```"@) {
            let j = choose|j: int| text::occurs_at(before, "```"@, j);
            assert(before.subrange(j, j + 3)[0] == before[j]);
        }
    }
    assert(!text::contains_seq(before, "<pre"@)) by {
        if text::contains_seq(before, "<pre"@) {
            let j = choose|j: int| text::occurs_at(before, "<pre"@, j);
            assert(before.subrange(j, j + 4).len() == 4);
        }
    }
    assert(before.len() > 0 && before[0] == '*');
    assert(trim_leading_newlines(before) == before);
    assert(!"\n\n"@.is_prefix_of(before)) by {
        if "\n\n"@.is_prefix_of(before) {
            assert("\n\n"@[0] == before[0]);
        }
    }
}

/// Bold or italic with text selected wraps exactly the selected text in the markers,
/// leaving the rest of the body as it was, and puts the cursor after the closing
/// marker.
pub proof fn law_format_wraps_selection(s: EditSessionV, before: Seq<char>, after: Seq<char>, a: usize, b: usize)
    requires
        is_inline_format(before, after),
        s.selection == Some((a, b)),
        a < b <= s.body.len(),
    ensures
        replaced(s, before, after).body == s.body.take(a as int) + before + s.body.subrange(a as int, b as int)
            + after + s.body.skip(b as int),
        replaced(s, before, after).selection == Some(((b + before.len() + after.len()) as usize, (b + before.len() + after.len()) as usize)),
{
    lemma_inline_markers_unadjusted(s.body.take(a as int), before, after);
}

/// Bold or italic with nothing selected inserts both markers at the cursor, leaving
/// the rest of the body as it was, and puts the cursor between them.
pub proof fn law_format_at_cursor(s: EditSessionV, before: Seq<char>, after: Seq<char>, a: usize)
    requires
        is_inline_format(before, after),
        s.selection == Some((a, a)),
        a <= s.body.len(),
    ensures
        replaced(s, before, after).body == s.body.take(a as int) + before + after + s.body.skip(a as int),
        replaced(s, before, after).selection == Some(((a + before.len()) as usize, (a + before.len()) as usize)),
{
    lemma_inline_markers_unadjusted(s.body.take(a as int), before, after);
    assert(s.body.subrange(a as int, a as int) =~= Seq::<char>::empty());
    assert(s.body.take(a as int) + before + Seq::<char>::empty() + after + s.body.skip(a as int) =~= s.body.take(a as int)
        + before + after + s.body.skip(a as int));
}

/// Any insertion leaves the text before the selection in front and the text after it
/// at the end of the body.
pub proof fn law_replacement_keeps_surroundings(s: EditSessionV, before: Seq<char>, after: Seq<char>)
    ensures
        s.body.take(clamp(sel_bounds(s.selection, s.body.len()).0, s.body.len())).is_prefix_of(
            replaced(s, before, after).body,
        ),
        s.body.skip(clamp(sel_bounds(s.selection, s.body.len()).1, s.body.len())).is_suffix_of(
            replaced(s, before, after).body,
        ),
{
    let n = s.body.len();
    let (lo, hi) = sel_bounds(s.selection, n);
    let lo_c = clamp(lo, n);
    let hi_c = clamp(hi, n);
    let r = replaced(s, before, after).body;
    let prefix = s.body.take(lo_c);
    let suffix = s.body.skip(hi_c);
    let mid = r.subrange(prefix.len() as int, r.len() - suffix.len());
    assert(r =~= prefix + mid + suffix);
    assert(prefix.is_prefix_of(r)) by {
        assert forall|i: int| 0 <= i < prefix.len() implies prefix[i] == r[i] by {}
    }
    assert(suffix.is_suffix_of(r)) by {
        assert forall|i: int| 0 <= i < suffix.len() implies suffix[i] == r[r.len() - suffix.len() + i] by {}
    }
}

/// A selection made from right to left acts as the same selection made from left to
/// right.
pub proof fn law_reversed_selection_same(s: EditSessionV, a: usize, b: usize, before: Seq<char>, after: Seq<char>)
    ensures
        replaced(EditSessionV { selection: Some((a, b)), ..s }, before, after) == replaced(
            EditSessionV { selection: Some((b, a)), ..s },
            before,
            after,
        ),
{
}

/// The import marker of a statement occurs in the statement itself for the component
/// imports the editor writes.
pub open spec fn marks_itself(stmt: Seq<char>) -> bool {
    text::contains_seq(stmt, import_marker(stmt))
}

/// Ensuring an import a second time changes nothing, when the statement carries its
/// own marker (as every import the editor writes does).
pub proof fn law_import_idempotent(s: EditSessionV, stmt: Seq<char>)
    requires
        marks_itself(stmt),
    ensures
        with_import(with_import(s, stmt), stmt) == with_import(s, stmt),
{
    let m = import_marker(stmt);
    if !text::contains_seq(s.body, m) {
        let nb = stmt + seq!['\n'] + s.body;
        let j = choose|j: int| text::occurs_at(stmt, m, j);
        assert(nb.subrange(j, j + m.len()) =~= stmt.subrange(j, j + m.len()));
        assert(text::occurs_at(nb, m, j));
    }
}

} // verus!

verus! {

/// Switches the editor to the repository `path`: the configuration switches (see
/// `models::with_repo`), and nothing of the previously open document stays selected or
/// loaded: no collection, no file, an empty content, frontmatter and body.
pub fn switch_repository(
    config: &mut crate::models::Config,
    selected_collection: &mut Option<String>,
    selected_file: &mut Option<String>,
    content: &mut String,
    frontmatter: &mut crate::yaml::YamlMapping,
    session: &mut EditSession,
    path: String,
)
    ensures
        final(config)@ == crate::models::with_repo(old(config)@, path@),
        *final(selected_collection) is None,
        *final(selected_file) is None,
        final(content)@ == Seq::<char>::empty(),
        final(frontmatter)@ == Seq::<(crate::yaml::YamlV, crate::yaml::YamlV)>::empty(),
        final(session)@ == (EditSessionV { body: Seq::<char>::empty(), ..old(session)@ }),
{
    config.set_repo_path(path);
    *selected_collection = None;
    *selected_file = None;
    *content = String::new();
    *frontmatter = crate::yaml::YamlMapping::new();
    session.body = String::new();
}

} // verus!
