use interstellar_writer_astro::files::{
    asset_repo_path, collect_tags, create_error_message, entry_titles, file_entry_for, file_exists_message,
    initial_content, initial_content_at, is_content_file, mdx_name, new_file_name, scan_entries,
};
use interstellar_writer_astro::models::{CollectionDef, FieldDef, FieldType};

fn field(name: &str, t: FieldType, default_value: &str) -> FieldDef {
    FieldDef { name: name.to_string(), field_type: t, default_value: default_value.to_string(), options: None }
}

#[test]
fn new_file_names() {
    assert_eq!(new_file_name("  mi-post "), Ok("mi-post.md".to_string()));
    assert_eq!(new_file_name("a.mdx"), Ok("a.mdx".to_string()));
    assert_eq!(new_file_name("docs/guia.md"), Ok("docs/guia.md".to_string()));
    assert_eq!(new_file_name("   "), Err("Nombre de archivo vacío".to_string()));
    assert_eq!(new_file_name(""), Err("Nombre de archivo vacío".to_string()));
}

#[test]
fn new_file_messages() {
    assert_eq!(file_exists_message("a.md"), "El archivo a.md ya existe");
    assert_eq!(create_error_message("denied"), "Error al crear archivo: denied");
}

#[test]
fn initial_content_without_definition() {
    let now = "2024-01-01T00:00:00.000Z";
    assert_eq!(
        initial_content_at("post.md", None, now, &vec![]),
        "---\ntitle: \"post\"\npublishDate: 2024-01-01T00:00:00.000Z\n---\n\nContenido..."
    );
    // `.md` is removed before `.mdx`, so an `.mdx` name keeps its `x`.
    assert!(initial_content_at("post.mdx", None, now, &vec![]).contains("title: \"postx\""));
}

#[test]
fn initial_content_with_definition() {
    let def = CollectionDef {
        name: "blog".to_string(),
        fields: vec![
            field("title", FieldType::String, "x"),
            field("draft", FieldType::Boolean, "true"),
            field("date", FieldType::Date, "now"),
            field("tags", FieldType::List, ""),
            field("image", FieldType::Image, ""),
            field("count", FieldType::Number, "3"),
            field("author", FieldType::String, "Ana"),
        ],
    };
    let numbers = vec![serde_yaml::Number::from(0); 5]
        .into_iter()
        .chain(vec![serde_yaml::Number::from(3), serde_yaml::Number::from(0)])
        .collect::<Vec<_>>();
    let text = initial_content_at("nuevo.md", Some(&def), "2024-05-06T07:08:09.000Z", &numbers);
    assert!(text.starts_with("---\ntitle: nuevo\ndraft: true\ndate: "));
    assert!(text.contains("2024-05-06T07:08:09.000Z"));
    assert!(text.contains("\ntags: []\nimage: null\ncount: 3\nauthor: Ana\n---\n\nEscribe aquí tu contenido..."));
}

#[test]
fn mdx_names() {
    assert_eq!(mdx_name("post.md"), Some("post.mdx".to_string()));
    assert_eq!(mdx_name("a.md.md"), Some("a.md.mdx".to_string()));
    assert_eq!(mdx_name("x.mdx"), None);
    assert_eq!(mdx_name("readme.txt"), None);
}

#[test]
fn asset_paths() {
    assert_eq!(asset_repo_path("src\\assets", "a b.png"), "src/assets/a b.png");
    assert_eq!(asset_repo_path("src/assets/imagesblog", "x.jpg"), "src/assets/imagesblog/x.jpg");
}

#[test]
fn content_files() {
    assert!(is_content_file("a.md"));
    assert!(is_content_file("b.mdx"));
    assert!(!is_content_file("c.txt"));
}

#[test]
fn entry_of_a_file() {
    let e = file_entry_for("sub\\a.mdx", Some("---\ntitle: A\npublishDate: 2024-03-01\ndraft: true\nimage: x.png\n---\n"));
    assert_eq!(e.name, "sub/a.mdx");
    assert_eq!(e.title, "A");
    assert_eq!(e.date, "2024-03-01");
    assert!(e.draft);
    assert_eq!(e.image, Some("x.png".to_string()));

    let plain = file_entry_for("c.md", None);
    assert_eq!(plain.title, "c.md");
    assert_eq!(plain.date, "");
    assert!(!plain.draft);

    let broken = file_entry_for("d.md", Some("---\ntitle: [roto\n---\n"));
    assert_eq!(broken.title, "d.md");
}

#[test]
fn scanned_entries_newest_first() {
    let found = vec![
        ("b.md".to_string(), Some("---\ntitle: B\ndate: 2024-02-01\n---\nx".to_string())),
        ("sub/a.mdx".to_string(), Some("---\ntitle: A\ndate: 2024-03-01\ndraft: true\n---\n".to_string())),
        ("notes.txt".to_string(), Some("texto".to_string())),
        ("c.md".to_string(), None),
        ("e.md".to_string(), Some("---\ntitle: E\ndate: 2024-02-01\n---\n".to_string())),
    ];
    let entries = scan_entries(&found);
    let names: Vec<&str> = entries.iter().map(|e| e.name.as_str()).collect();
    assert_eq!(names, vec!["sub/a.mdx", "b.md", "e.md", "c.md"]);
    assert_eq!(entry_titles(&entries), vec!["A", "B", "E", "c.md"]);
}

#[test]
fn tags_sorted_once_each() {
    let contents = vec![
        "---\ntags: [rust, web]\n---\n".to_string(),
        "---\ntags:\n  - astro\n  - rust\n---\nbody".to_string(),
        "no frontmatter".to_string(),
        "---\ntitle: sin tags\n---\n".to_string(),
    ];
    assert_eq!(collect_tags(&contents), vec!["astro", "rust", "web"]);
    assert!(collect_tags(&vec![]).is_empty());
}

#[test]
fn initial_content_has_timestamp() {
    let text = initial_content("post.md", None, &vec![]);
    let line = text.lines().find(|l| l.starts_with("publishDate: ")).unwrap();
    let ts = &line["publishDate: ".len()..];
    assert!(ts.chars().count() >= 24);
    assert!(ts.ends_with(".000Z"));
    let tail: Vec<char> = ts.chars().rev().take(20).collect::<Vec<char>>().into_iter().rev().collect();
    assert_eq!(tail[0], '-');
    assert_eq!(tail[3], '-');
    assert_eq!(tail[6], 'T');
    assert_eq!(tail[9], ':');
    assert_eq!(tail[12], ':');
}
