use interstellar_writer_astro::dashboard::{
    card_action, dashboard_action, delete_check, file_label, status_label, CardAction, DashboardAction,
};
use interstellar_writer_astro::highlight::{highlighted_lines, line_style, LineStyle};
use interstellar_writer_astro::metadata::{
    add_choice, add_tag, category_choices, field_layout, new_collection, new_field, options_from_text,
    options_to_text,
};
use interstellar_writer_astro::models::{FieldDef, FieldType, FileEntry};
use interstellar_writer_astro::preview::{notice_style, preview_blocks, NoticeKind, PreviewBlock};
use interstellar_writer_astro::theme::{line_color, notice_color, palette, surface_colors, Rgb};
use interstellar_writer_astro::yaml::{YamlMapping, YamlValue};

fn entry(name: &str, title: &str, draft: bool) -> FileEntry {
    FileEntry { name: name.to_string(), title: title.to_string(), date: String::new(), draft, image: None }
}

fn texts(items: &Vec<YamlValue>) -> Vec<String> {
    items.iter().filter_map(|i| i.as_str().cloned()).collect()
}

#[test]
fn preview_splits_notices() {
    let blocks = preview_blocks("intro\n<Notice type=\"tip\" title=\"Ojo\">\n cuerpo \n</Notice>\nfin");
    assert_eq!(blocks.len(), 3);
    match &blocks[0] {
        PreviewBlock::Markdown(t) => assert_eq!(t, "intro"),
        _ => panic!("expected markdown"),
    }
    match &blocks[1] {
        PreviewBlock::Notice { notice_type, title, body } => {
            assert_eq!(notice_type, "tip");
            assert_eq!(title, "Ojo");
            assert_eq!(body, "cuerpo");
        },
        _ => panic!("expected notice"),
    }
    match &blocks[2] {
        PreviewBlock::Markdown(t) => assert_eq!(t, "\nfin"),
        _ => panic!("expected markdown"),
    }
}

#[test]
fn preview_defaults_and_unclosed_notices() {
    let blocks = preview_blocks("<Notice>x</Notice>");
    match &blocks[0] {
        PreviewBlock::Notice { notice_type, title, body } => {
            assert_eq!(notice_type, "info");
            assert_eq!(title, "");
            assert_eq!(body, "x");
        },
        _ => panic!("expected notice"),
    }
    let open = preview_blocks("a<Notice type=\"x\">b");
    assert_eq!(open.len(), 2);
    assert!(matches!(&open[1], PreviewBlock::Markdown(t) if t == "b"));
    let blank = preview_blocks("import A from 'a';\n   \n");
    assert!(blank.is_empty());
}

#[test]
fn notice_styles() {
    assert_eq!(notice_style("warning"), (NoticeKind::Warning, "\u{26A0}".to_string()));
    assert_eq!(notice_style("tip"), (NoticeKind::Tip, "\u{1F4A1}".to_string()));
    assert_eq!(notice_style("otro"), (NoticeKind::Info, "\u{2139}".to_string()));
}

#[test]
fn editor_line_styles() {
    let lines = highlighted_lines("# T\r\nimport x\n  <Notice type=\"danger\">\n  <div>\ntexto\n---");
    let styles: Vec<LineStyle> = lines.iter().map(|l| l.1).collect();
    assert_eq!(
        styles,
        vec![LineStyle::Heading, LineStyle::Faint, LineStyle::NoticeDanger, LineStyle::Markup, LineStyle::Body, LineStyle::Faint]
    );
    assert_eq!(lines[0].0, "# T");
    assert_eq!(line_style("<Notice type=\"note\">"), LineStyle::NoticeOther);
    assert_eq!(highlighted_lines("").len(), 1);
}

#[test]
fn tags_and_choices() {
    let mut items = vec![YamlValue::String("a".to_string())];
    let mut input = "  b ".to_string();
    add_tag(&mut items, &mut input);
    assert_eq!(texts(&items), vec!["a", "b"]);
    assert_eq!(input, "");
    let mut again = "a".to_string();
    add_tag(&mut items, &mut again);
    assert_eq!(texts(&items), vec!["a", "b"]);
    let mut blank = "   ".to_string();
    add_tag(&mut items, &mut blank);
    assert_eq!(blank, "   ");
    assert_eq!(items.len(), 2);
    add_choice(&mut items, "c");
    add_choice(&mut items, "a");
    assert_eq!(texts(&items), vec!["a", "b", "c"]);
}

#[test]
fn category_choice_sources() {
    let all = vec!["z".to_string(), "a".to_string(), "z".to_string()];
    let opts = Some(vec!["m".to_string()]);
    assert_eq!(category_choices(&all, &opts), vec!["a", "z"]);
    assert_eq!(category_choices(&vec![], &opts), vec!["m"]);
    assert!(category_choices(&vec![], &None).is_empty());
}

#[test]
fn options_text() {
    assert_eq!(options_from_text(" a, ,b ,c,"), vec!["a", "b", "c"]);
    let opts = vec!["uno".to_string(), "dos tres".to_string()];
    let t = options_to_text(&opts);
    assert_eq!(t, "uno, dos tres");
    assert_eq!(options_from_text(&t), opts);
    assert!(options_from_text("").is_empty());
}

#[test]
fn dialog_defaults() {
    let f = new_field();
    assert_eq!(f.name, "nuevo_campo");
    assert_eq!(f.field_type, FieldType::String);
    assert_eq!(f.default_value, "");
    assert!(f.options.is_none());
    let c = new_collection();
    assert_eq!(c.name, "nueva_coleccion");
    assert!(c.fields.is_empty());
}

#[test]
fn metadata_groups() {
    let mk = |n: &str| FieldDef { name: n.to_string(), field_type: FieldType::String, default_value: String::new(), options: None };
    let fields = vec![mk("tags"), mk("draft"), mk("title"), mk("tags"), mk("image"), mk("title")];
    let (general, others) = field_layout(&fields);
    assert_eq!(general, vec![2, 1]);
    assert_eq!(others, vec![0, 4]);
}

#[test]
fn dashboard_actions() {
    assert_eq!(card_action(false, false, true), CardAction::Idle);
    assert_eq!(card_action(true, true, true), CardAction::Delete);
    assert_eq!(card_action(false, true, false), CardAction::Edit);
    let entries = vec![entry("a.md", "A", true), entry("b.md", "B", false)];
    match dashboard_action(true, false, &entries, &vec![CardAction::Delete, CardAction::Idle]) {
        DashboardAction::DeleteFile(n) => assert_eq!(n, "a.md"),
        _ => panic!("expected deletion"),
    }
    assert!(matches!(
        dashboard_action(true, true, &entries, &vec![CardAction::Idle, CardAction::Idle]),
        DashboardAction::Refresh
    ));
    assert!(matches!(
        dashboard_action(true, false, &entries, &vec![CardAction::Idle, CardAction::Idle]),
        DashboardAction::NewFile
    ));
    assert!(matches!(
        dashboard_action(false, false, &vec![], &vec![]),
        DashboardAction::Idle
    ));
}

#[test]
fn labels_and_deletion() {
    assert_eq!(file_label(&entry("a.md", "Borrador", true)), "📝 Borrador");
    assert_eq!(file_label(&entry("b.md", "Listo", false)), "✅ Listo");
    assert_eq!(status_label(true), "Draft");
    assert_eq!(status_label(false), "Published");
    let mut fm = YamlMapping::new();
    assert_eq!(
        delete_check(&fm),
        Err("⚠️ Solo se pueden eliminar archivos en estado 'draft: true'".to_string())
    );
    fm.insert("draft", YamlValue::String("true".to_string()));
    assert!(delete_check(&fm).is_err());
    fm.insert("draft", YamlValue::Bool(true));
    assert_eq!(delete_check(&fm), Ok(()));
}

#[test]
fn theme_colors() {
    let dark = palette(true);
    let light = palette(false);
    assert_eq!(dark.panel_bg, Rgb { r: 28, g: 27, b: 26 });
    assert_eq!(light.panel_bg, Rgb { r: 245, g: 243, b: 240 });
    assert_eq!(dark.brand_primary, light.brand_primary);
    assert_eq!(notice_color(&dark, NoticeKind::Tip), Rgb { r: 155, g: 89, b: 182 });
    assert_eq!(notice_color(&light, NoticeKind::Danger), Rgb { r: 180, g: 55, b: 45 });
    assert_eq!(line_color(&dark, true, LineStyle::Markup), Rgb { r: 154, g: 149, b: 144 });
    assert_eq!(line_color(&light, false, LineStyle::Body), Rgb { r: 74, g: 69, b: 64 });
    assert_eq!(surface_colors(false).1, Rgb { r: 255, g: 255, b: 255 });
}
