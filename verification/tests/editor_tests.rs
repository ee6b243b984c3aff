use interstellar_writer_astro::editor::{
    fix_all_image_paths, toolbar_commands, EditSession, ToolbarActions, ToolbarCommand,
};
use interstellar_writer_astro::yaml::{YamlMapping, YamlValue};

fn session(body: &str, selection: Option<(usize, usize)>) -> EditSession {
    EditSession {
        body: body.to_string(),
        selection,
        pending_selection: None,
        showing_markdown_mode: true,
        status_message: String::new(),
    }
}

#[test]
fn bold_without_selection_puts_cursor_between_markers() {
    let mut s = session("Hola mundo cruel", Some((10, 10)));
    s.insert_replacement("**", "**");
    assert_eq!(s.body, "Hola mundo**** cruel");
    assert_eq!(s.selection, Some((12, 12)));
    assert_eq!(s.pending_selection, Some((12, 12)));
    assert!(!s.showing_markdown_mode);
}

#[test]
fn italic_at_end_of_document() {
    let mut s = session("abc", None);
    s.insert_replacement("*", "*");
    assert_eq!(s.body, "abc**");
    assert_eq!(s.selection, Some((4, 4)));
}

#[test]
fn bold_wraps_selected_word() {
    let mut s = session("1234 hello rest", Some((5, 10)));
    s.insert_replacement("**", "**");
    assert_eq!(s.body, "1234 **hello** rest");
    assert_eq!(s.selection, Some((14, 14)));

    let mut r = session("1234 hello rest", Some((10, 5)));
    r.insert_replacement("**", "**");
    assert_eq!(r.body, "1234 **hello** rest");
}

#[test]
fn bold_wraps_multiline_selection() {
    let mut s = session("a\nb\nc", Some((0, 5)));
    s.insert_replacement("**", "**");
    assert_eq!(s.body, "**a\nb\nc**");
}

#[test]
fn link_placeholder_and_out_of_range_selection() {
    let mut s = session("ver ", Some((4, 4)));
    s.insert_replacement("[", "](url)");
    assert_eq!(s.body, "ver [título](url)");
    assert_eq!(s.selection, Some((17, 17)));

    // A stale selection past the end inserts at the end of the body.
    let mut t = session("ab", Some((7, 9)));
    t.insert_at_cursor("X");
    assert_eq!(t.body, "abX");
    assert_eq!(t.selection, Some((8, 8)));
}

#[test]
fn block_gets_a_blank_line_before_it() {
    let mut s = session("texto", Some((5, 5)));
    s.insert_at_cursor("| a |");
    assert_eq!(s.body, "texto\n\n| a |");

    let mut t = session("uno\n", None);
    t.insert_at_cursor("\n\n# ");
    assert_eq!(t.body, "uno\n\n# ");

    let mut u = session("", None);
    u.insert_at_cursor("\n\n## ");
    assert_eq!(u.body, "## ");
    assert_eq!(u.selection, Some((3, 3)));
}

#[test]
fn code_block_placeholder() {
    let mut s = session("", None);
    s.insert_replacement("\n```rust\n", "\n```\n");
    assert_eq!(s.body, "```rust\n\n  // Código aquí\n\n```\n");
}

#[test]
fn ensure_import_adds_once() {
    let mut s = session("cuerpo", Some((2, 3)));
    let stmt = "import Notice from \"../../components/Notice.astro\";";
    s.ensure_import(stmt);
    assert_eq!(s.body, format!("{}\ncuerpo", stmt));
    assert_eq!(s.selection, Some((54, 55)));
    assert_eq!(s.pending_selection, Some((54, 55)));
    assert_eq!(s.status_message, "📦 Componente importado");

    s.status_message.clear();
    s.ensure_import("import Notice from \"./elsewhere.astro\";");
    assert_eq!(s.body, format!("{}\ncuerpo", stmt));
    assert_eq!(s.status_message, "");
}

#[test]
fn notice_insertion_with_import() {
    let mut s = session("texto", Some((5, 5)));
    s.insert_notice("src/content", "blog", "post.mdx", "tip", "Tip");
    let stmt = "import Notice from \"../../components/Notice.astro\";";
    let expected = format!(
        "{}\ntexto\n\n<Notice type=\"tip\" title=\"Tip\">\nEscribe aquí tu contenido...\n</Notice>\n\n",
        stmt
    );
    assert_eq!(s.body, expected);
    let pos = 5 + 52 + 34 + 28 + 12;
    assert_eq!(s.selection, Some((pos, pos)));
    assert_eq!(s.status_message, "✅ Aviso 'Tip' insertado");
}

#[test]
fn cta_insertion_with_import() {
    let mut s = session("", None);
    s.insert_cta("src/content", "blog", "post.mdx");
    assert!(s.body.starts_with("import CTABox from \"../../components/CTABox.astro\";\n"));
    assert!(s.body.ends_with("<CTABox\n  title=\"Título\"\n  description=\"Descripción\"\n  buttonText=\"Botón\"\n  buttonHref=\"/\"\n/>\n\n"));
}

#[test]
fn image_insertion_imports_and_inserts_block() {
    let mut s = session("", None);
    s.insert_image("src/content", Some("blog"), Some("post.mdx"), "src/assets/imagesblog/mi foto-1.png");
    let imp = "import img_mi_foto_1 from \"../../assets/imagesblog/mi foto-1.png\";";
    let astro = "import { Image } from \"astro:assets\";";
    let block = "\n<div class=\"my-12 flex flex-col items-center\">\n  <Image\n    src={img_mi_foto_1}\n    alt=\"mi foto-1.png\"\n    class=\"rounded-xl shadow-lg w-full max-w-3xl\"\n  />\n  <p class=\"text-center text-sm text-slate-500 mt-3 italic\">\n    Descripción de la imagen\n  </p>\n</div>\n\n";
    assert_eq!(s.body, format!("{}\n{}\n{}", astro, imp, block));
    assert_eq!(s.status_message, "🖼 Imagen insertada con componente Astro");
}

#[test]
fn image_without_open_document_uses_repository_path() {
    let mut s = session("x", Some((0, 0)));
    s.insert_image("src/content", None, None, "assets/.hidden");
    assert!(s.body.contains("import img_.hidden from \"assets/.hidden\";"));
}

#[test]
fn fix_paths_recalculates_assets_and_imports() {
    let mut fm = YamlMapping::new();
    fm.insert("image", YamlValue::String("assets/x.png".to_string()));
    fm.insert("title", YamlValue::String("T".to_string()));
    let mut s = session(
        "import Notice from \"../../components/Notice.astro\";\n![a](./assets/b.png)\n![c](../assets/d.png)\ntexto",
        None,
    );
    fix_all_image_paths(&mut fm, &mut s, "guias/post.mdx");
    assert_eq!(
        fm.get("image").and_then(|v| v.as_str()).map(|v| v.as_str()),
        Some("../../../assets/x.png")
    );
    assert_eq!(fm.get("title").and_then(|v| v.as_str()).map(|v| v.as_str()), Some("T"));
    assert_eq!(
        s.body,
        "import Notice from \"../../../components/Notice.astro\";\n![a](../../../assets/b.png)\n![c](../../../assets/d.png)\ntexto"
    );
    assert_eq!(s.status_message, "🔧 Rutas de activos y componentes recalculadas");
}

#[test]
fn image_paths_already_right_stay() {
    let mut fm = YamlMapping::new();
    let mut s = session("![a](../../assets/x.png)", None);
    fix_all_image_paths(&mut fm, &mut s, "post.mdx");
    assert_eq!(s.body, "![a](../../assets/x.png)");
    fix_all_image_paths(&mut fm, &mut s, "post.mdx");
    assert_eq!(s.body, "![a](../../assets/x.png)");
}

#[test]
fn image_paths_repaired_once() {
    let mut fm = YamlMapping::new();
    let mut s = session(
        "![a](./assets/a.png) ![b](../assets/b.png) ![c](../../../assets/c.png) ![d](../../../../assets/d.png) x/./assets/e",
        None,
    );
    fix_all_image_paths(&mut fm, &mut s, "post.mdx");
    let once = s.body.clone();
    assert_eq!(
        once,
        "![a](../../assets/a.png) ![b](../../assets/b.png) ![c](../../assets/c.png) ![d](../../assets/d.png) x/./assets/e"
    );
    fix_all_image_paths(&mut fm, &mut s, "post.mdx");
    assert_eq!(s.body, once);
}

#[test]
fn toolbar_commands_in_order() {
    let mut a = ToolbarActions::default();
    a.insert_notice_tip = true;
    a.insert_bold = true;
    a.convert_to_mdx = true;
    a.toggle_preview = true;
    assert_eq!(
        toolbar_commands(&a),
        vec![ToolbarCommand::ConvertToMdx, ToolbarCommand::Bold, ToolbarCommand::NoticeTip]
    );
    assert!(toolbar_commands(&ToolbarActions::default()).is_empty());
}

#[test]
fn toolbar_command_edits() {
    let mut s = session("x", Some((1, 1)));
    s.apply_command(ToolbarCommand::InsertH2, "src/content", "blog", "post.md");
    assert_eq!(s.body, "x\n\n## ");

    let mut c = session("rojo", Some((0, 4)));
    c.apply_command(ToolbarCommand::Color, "src/content", "blog", "post.md");
    assert_eq!(c.body, "<span style={{color: '#e74c3c'}}>\nrojo\n</span>");

    let mut n = session("", None);
    n.apply_command(ToolbarCommand::NoticeDanger, "src/content", "blog", "post.md");
    assert!(n.body.contains("<Notice type=\"danger\" title=\"Peligro\">"));
    assert_eq!(n.status_message, "✅ Aviso 'Peligro' insertado");
}
