use interstellar_writer_astro::frontmatter::{
    collection_for, ensure_mandatory_fields, ensure_mandatory_fields_at, is_draft, load_document,
    normalize_frontmatter,
};
use interstellar_writer_astro::models::{CollectionDef, Config, FieldDef, FieldType};
use interstellar_writer_astro::yaml::{YamlMapping, YamlValue};

fn strs(v: Option<&YamlValue>) -> Vec<String> {
    match v.and_then(|v| v.as_sequence()) {
        Some(items) => items.iter().filter_map(|i| i.as_str().cloned()).collect(),
        None => vec![],
    }
}

fn list(items: &[&str]) -> YamlValue {
    YamlValue::Sequence(items.iter().map(|s| YamlValue::String(s.to_string())).collect())
}

#[test]
fn default_configuration() {
    let c = Config::default();
    assert_eq!(c.repo_path, None);
    assert_eq!(c.github_token, None);
    assert!(c.dark_mode);
    assert_eq!(c.content_dir, "src/content");
    assert_eq!(c.assets_dir, "src/assets/imagesblog");
    assert_eq!(c.collections.len(), 2);
    assert_eq!(c.collections[0].name, "blog");
    assert_eq!(c.collections[0].fields.len(), 10);
    assert_eq!(c.collections[0].fields[3].field_type, FieldType::Categories);
    assert_eq!(c.collections[0].fields[3].options.as_ref().map(|o| o.len()), Some(7));
    assert_eq!(c.collections[1].name, "docs");
    assert_eq!(c.collections[1].fields.len(), 6);
    assert!(c.project_configs.is_empty());
}

#[test]
fn switching_repositories_keeps_each_projects_settings() {
    let mut c = Config::default();
    c.set_repo_path("/repo/a".to_string());
    assert_eq!(c.repo_path, Some("/repo/a".to_string()));
    assert_eq!(c.project_configs.len(), 1);
    c.content_dir = "content".to_string();
    c.set_repo_path("/repo/b".to_string());
    assert_eq!(c.content_dir, "content");
    assert_eq!(c.project_configs.len(), 2);
    c.content_dir = "docs".to_string();
    c.set_repo_path("/repo/a".to_string());
    assert_eq!(c.content_dir, "content");
    c.set_repo_path("/repo/b/".to_string());
    assert_eq!(c.content_dir, "docs");
    assert_eq!(c.project_configs.len(), 2);
}

#[test]
fn migration_records_current_repository() {
    let mut c = Config::default();
    c.repo_path = Some("/r".to_string());
    c.migrate_project_configs();
    assert_eq!(c.project_configs.len(), 1);
    assert_eq!(c.project_configs[0].repo_path, "/r");
    assert_eq!(c.project_configs[0].content_dir, "src/content");
    c.migrate_project_configs();
    assert_eq!(c.project_configs.len(), 1);
}

#[test]
fn sync_project_config_updates_entry() {
    let mut c = Config::default();
    c.set_repo_path("/r".to_string());
    c.assets_dir = "public".to_string();
    c.sync_project_config();
    assert_eq!(c.project_configs.len(), 1);
    assert_eq!(c.project_configs[0].assets_dir, "public");
    assert_eq!(c.project_position("/r"), Some(0));
    assert_eq!(c.project_position("/other"), None);
}

#[test]
fn normalize_merges_labels_and_category() {
    let mut fm = YamlMapping::new();
    fm.insert("labels", list(&["b", "a"]));
    fm.insert("tags", list(&["c", "a"]));
    fm.insert("category", YamlValue::String("z".to_string()));
    fm.insert("categories", list(&["y", "z"]));
    normalize_frontmatter(&mut fm);
    assert!(fm.get("labels").is_none());
    assert!(fm.get("category").is_none());
    assert_eq!(strs(fm.get("tags")), vec!["a", "b", "c"]);
    assert_eq!(strs(fm.get("categories")), vec!["y", "z"]);

    let mut single = YamlMapping::new();
    single.insert("labels", YamlValue::String("solo".to_string()));
    single.insert("tags", list(&["x"]));
    normalize_frontmatter(&mut single);
    assert_eq!(strs(single.get("tags")), vec!["solo"]);

    let mut again = YamlMapping::new();
    again.insert("tags", list(&["b", "a", "b"]));
    normalize_frontmatter(&mut again);
    let once = strs(again.get("tags"));
    normalize_frontmatter(&mut again);
    assert_eq!(strs(again.get("tags")), once);
    assert_eq!(once, vec!["a", "b"]);
}

#[test]
fn empty_category_is_dropped() {
    let mut fm = YamlMapping::new();
    fm.insert("category", YamlValue::Bool(true));
    normalize_frontmatter(&mut fm);
    assert!(fm.get("category").is_none());
    assert!(fm.get("categories").is_none());
    assert!(fm.is_empty());
}

fn fields() -> Vec<FieldDef> {
    vec![
        FieldDef { name: "title".to_string(), field_type: FieldType::String, default_value: "T".to_string(), options: None },
        FieldDef { name: "date".to_string(), field_type: FieldType::Date, default_value: "now".to_string(), options: None },
        FieldDef { name: "draft".to_string(), field_type: FieldType::Boolean, default_value: "true".to_string(), options: None },
        FieldDef { name: "n".to_string(), field_type: FieldType::Number, default_value: "2".to_string(), options: None },
    ]
}

#[test]
fn mandatory_fields_are_added_without_touching_existing_ones() {
    let mut fm = YamlMapping::new();
    fm.insert("title", YamlValue::String("Mío".to_string()));
    let numbers = vec![serde_yaml::Number::from(0), serde_yaml::Number::from(0), serde_yaml::Number::from(0), serde_yaml::Number::from(2)];
    ensure_mandatory_fields_at(&mut fm, &fields(), "AHORA", &numbers);
    assert_eq!(fm.get("title").and_then(|v| v.as_str()).map(|s| s.as_str()), Some("Mío"));
    assert_eq!(fm.get("date").and_then(|v| v.as_str()).map(|s| s.as_str()), Some("AHORA"));
    assert_eq!(fm.get("draft").and_then(|v| v.as_bool()), Some(true));
    assert!(matches!(fm.get("n"), Some(YamlValue::Number(_))));
    assert_eq!(fm.len(), 4);
    assert!(is_draft(&fm));
}

#[test]
fn collection_lookup_falls_back_to_first() {
    let cs = vec![
        CollectionDef { name: "blog".to_string(), fields: vec![] },
        CollectionDef { name: "docs".to_string(), fields: fields() },
    ];
    assert_eq!(collection_for(&cs, "docs"), Some(1));
    assert_eq!(collection_for(&cs, "otra"), Some(0));
    assert_eq!(collection_for(&vec![], "docs"), None);

    let mut fm = YamlMapping::new();
    let numbers = vec![serde_yaml::Number::from(1); 4];
    ensure_mandatory_fields(&mut fm, &cs, "docs", &numbers);
    assert_eq!(fm.len(), 4);
    assert!(fm.get("date").and_then(|v| v.as_str()).map_or(false, |s| s.ends_with(".000Z")));
}

#[test]
fn loading_a_document() {
    let cs = vec![CollectionDef { name: "blog".to_string(), fields: fields() }];
    let numbers = vec![serde_yaml::Number::from(5); 4];
    let doc = load_document("---\ntitle: Hola\nlabels: [b, a]\n---\n\ncuerpo", &cs, Some("blog"), &numbers);
    assert_eq!(doc.body, "\n\ncuerpo");
    assert_eq!(doc.frontmatter.get("title").and_then(|v| v.as_str()).map(|s| s.as_str()), Some("Hola"));
    assert_eq!(strs(doc.frontmatter.get("tags")), vec!["a", "b"]);
    assert!(doc.frontmatter.get("labels").is_none());
    assert_eq!(doc.frontmatter.get("draft").and_then(|v| v.as_bool()), Some(true));

    let plain = load_document("sin frontmatter", &cs, None, &vec![]);
    assert!(plain.frontmatter.is_empty());
    assert_eq!(plain.body, "sin frontmatter");
}
