use interstellar_writer_astro::content::{clean_imports_for_preview, fix_dots_recursively};
use interstellar_writer_astro::editor::{switch_repository, EditSession};
use interstellar_writer_astro::models::Config;
use interstellar_writer_astro::paths::calculate_rel_path;
use interstellar_writer_astro::yaml::{YamlMapping, YamlValue};

#[test]
fn reversed_selection_acts_as_forward() {
    let mk = |sel: (usize, usize)| EditSession {
        body: "uno dos tres".to_string(),
        selection: Some(sel),
        pending_selection: None,
        showing_markdown_mode: true,
        status_message: String::new(),
    };
    let mut a = mk((4, 7));
    let mut b = mk((7, 4));
    a.insert_replacement("**", "**");
    b.insert_replacement("**", "**");
    assert_eq!(a.body, "uno **dos** tres");
    assert_eq!(a.body, b.body);
    assert_eq!(a.selection, b.selection);
    assert_eq!(a.pending_selection, b.pending_selection);
}

#[test]
fn switching_repositories_keeps_history_distinct() {
    let mut c = Config::default();
    for p in ["/r/a", "/r/b", "/r/a/", "/r/c", "/r/b", "/r//a"] {
        c.set_repo_path(p.to_string());
    }
    assert_eq!(c.project_configs.len(), 3);
}

#[test]
fn plain_text_preview_unchanged() {
    let t = "# Título\n\nUn párrafo con **negrita**.\nOtra línea";
    assert_eq!(clean_imports_for_preview(t), t);
}

#[test]
fn refixing_counts_only_the_last_prefix() {
    let mut a = YamlValue::String("../assets/x.png".to_string());
    fix_dots_recursively(&mut a, "../../../");
    fix_dots_recursively(&mut a, "../../");
    let mut b = YamlValue::String("../assets/x.png".to_string());
    fix_dots_recursively(&mut b, "../../");
    assert_eq!(a.as_str().map(|s| s.as_str()), Some("../../assets/x.png"));
    assert_eq!(a.as_str(), b.as_str());
}

#[test]
fn rel_path_round_trip_values() {
    assert_eq!(calculate_rel_path("src/content", "blog", "post.mdx", "src/assets/img.png"), "../../assets/img.png");
    assert_eq!(calculate_rel_path("src/content", "blog", "post.mdx", "src/content/blog/img.png"), "./img.png");
    assert_eq!(calculate_rel_path("src/content", "blog", "sub/post.mdx", "src/content/blog/sub"), "./");
}

#[test]
fn switching_repository_closes_the_document() {
    let mut c = Config::default();
    c.set_repo_path("/r/a".to_string());
    c.content_dir = "content".to_string();
    let mut coll = Some("blog".to_string());
    let mut file = Some("post.md".to_string());
    let mut content = "---\ntitle: x\n---\n\nhola".to_string();
    let mut fm = YamlMapping::new();
    fm.insert("title", YamlValue::String("x".to_string()));
    let mut s = EditSession {
        body: "hola".to_string(),
        selection: Some((1, 2)),
        pending_selection: None,
        showing_markdown_mode: false,
        status_message: "listo".to_string(),
    };
    switch_repository(&mut c, &mut coll, &mut file, &mut content, &mut fm, &mut s, "/r/b".to_string());
    assert_eq!(c.repo_path, Some("/r/b".to_string()));
    assert_eq!(c.project_configs.len(), 2);
    assert_eq!(c.project_configs[0].content_dir, "content");
    assert_eq!(coll, None);
    assert_eq!(file, None);
    assert!(content.is_empty());
    assert!(fm.is_empty());
    assert!(s.body.is_empty());
    assert_eq!(s.selection, Some((1, 2)));
    assert_eq!(s.status_message, "listo");
}
