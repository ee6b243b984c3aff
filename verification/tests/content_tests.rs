use interstellar_writer_astro::content::{
    clean_imports_for_preview, extract_attr, fix_dots_recursively, manual_with_assets, parse_content,
    serialize_content,
};
use interstellar_writer_astro::paths::calculate_rel_path;
use interstellar_writer_astro::yaml::{YamlMapping, YamlValue};

fn str_of(v: Option<&YamlValue>) -> Option<&str> {
    v.and_then(|v| v.as_str()).map(|s| s.as_str())
}

#[test]
fn test_parse_content_valid_frontmatter() {
    let content = "---\ntitle: Mi Post\ndraft: true\n---\n\n# Contenido";
    let parsed = parse_content(content);

    assert_eq!(str_of(parsed.frontmatter.get("title")), Some("Mi Post"));
    assert_eq!(parsed.frontmatter.get("draft").and_then(|v| v.as_bool()), Some(true));
    assert!(parsed.body.contains("# Contenido"));
}

#[test]
fn test_parse_content_empty_frontmatter() {
    let content = "---\n---\n\nSolo body";
    let parsed = parse_content(content);

    assert!(parsed.frontmatter.is_empty());
    assert!(parsed.body.contains("Solo body"));
}

#[test]
fn test_parse_content_no_frontmatter() {
    let content = "# Título\n\nContenido sin frontmatter";
    let parsed = parse_content(content);

    assert!(parsed.frontmatter.is_empty());
    assert_eq!(parsed.body, content);
}

#[test]
fn test_parse_content_malformed_yaml() {
    let content = "---\ntitle: [invalid yaml\n---\n\nBody";
    let parsed = parse_content(content);

    assert!(parsed.frontmatter.is_empty());
    assert!(parsed.body.contains("title"));
}

#[test]
fn test_parse_content_single_delimiter() {
    let content = "---\nNo es frontmatter válido";
    let parsed = parse_content(content);

    assert!(parsed.frontmatter.is_empty());
}

#[test]
fn test_serialize_content_basic() {
    let mut fm = YamlMapping::new();
    fm.insert("title", YamlValue::String("Test".to_string()));
    fm.insert("draft", YamlValue::Bool(false));

    let result = serialize_content(&fm, "# Body");

    assert!(result.starts_with("---"));
    assert!(result.contains("title: Test"));
    assert!(result.contains("# Body"));
}

#[test]
fn test_serialize_content_removes_nulls() {
    let mut fm = YamlMapping::new();
    fm.insert("title", YamlValue::String("Test".to_string()));
    fm.insert("image", YamlValue::Null);

    let result = serialize_content(&fm, "Body");

    assert!(result.contains("title"));
    assert!(!result.contains("image"));
}

#[test]
fn test_serialize_content_empty_frontmatter() {
    let fm = YamlMapping::new();
    let result = serialize_content(&fm, "Solo body");

    assert!(result.starts_with("---"));
    assert!(result.contains("Solo body"));
}

#[test]
fn test_extract_attr_found() {
    let tag = r#"<Notice type="tip" title="Importante">"#;

    assert_eq!(extract_attr(tag, "type"), Some("tip".to_string()));
    assert_eq!(extract_attr(tag, "title"), Some("Importante".to_string()));
}

#[test]
fn test_extract_attr_not_found() {
    let tag = r#"<Notice type="tip">"#;
    assert_eq!(extract_attr(tag, "missing"), None);
}

#[test]
fn test_extract_attr_empty_value() {
    let tag = r#"<Notice type="">"#;
    assert_eq!(extract_attr(tag, "type"), Some("".to_string()));
}

#[test]
fn test_extract_attr_special_chars() {
    let tag = r#"<Component data="hello-world_123">"#;
    assert_eq!(extract_attr(tag, "data"), Some("hello-world_123".to_string()));
}

#[test]
fn test_clean_imports_removes_import_lines() {
    let text = "import Component from './comp';\nimport Other from 'other';\n\n# Title";
    let result = clean_imports_for_preview(text);

    assert!(!result.contains("import"));
    assert!(result.contains("# Title"));
}

#[test]
fn test_clean_imports_replaces_components() {
    let text = "# Title\n<CTABox>content</CTABox>\n<Image src='img.png' />";
    let result = clean_imports_for_preview(text);

    assert!(result.contains("ANUNCIO"));
    assert!(result.contains("IMAGEN"));
}

#[test]
fn test_fix_dots_string() {
    let mut value = YamlValue::String("assets/image.png".to_string());
    fix_dots_recursively(&mut value, "../../");

    assert_eq!(value.as_str().map(|s| s.as_str()), Some("../../assets/image.png"));
}

#[test]
fn test_fix_dots_no_assets() {
    let mut value = YamlValue::String("other/path.png".to_string());
    fix_dots_recursively(&mut value, "../../");

    assert_eq!(value.as_str().map(|s| s.as_str()), Some("other/path.png"));
}

#[test]
fn test_fix_dots_mapping() {
    let mut mapping = YamlMapping::new();
    mapping.insert("image", YamlValue::String("assets/cover.jpg".to_string()));
    mapping.insert("title", YamlValue::String("Test".to_string()));

    let mut value = YamlValue::Mapping(mapping);
    fix_dots_recursively(&mut value, "../");

    if let YamlValue::Mapping(m) = value {
        assert_eq!(str_of(m.get("image")), Some("../assets/cover.jpg"));
        assert_eq!(str_of(m.get("title")), Some("Test"));
    } else {
        panic!("Expected mapping");
    }
}

#[test]
fn test_fix_dots_sequence() {
    let seq = vec![
        YamlValue::String("assets/img1.png".to_string()),
        YamlValue::String("assets/img2.png".to_string()),
    ];
    let mut value = YamlValue::Sequence(seq);
    fix_dots_recursively(&mut value, "../../");

    if let YamlValue::Sequence(s) = value {
        assert_eq!(s[0].as_str().map(|s| s.as_str()), Some("../../assets/img1.png"));
        assert_eq!(s[1].as_str().map(|s| s.as_str()), Some("../../assets/img2.png"));
    } else {
        panic!("Expected sequence");
    }
}

#[test]
fn test_calculate_rel_path_basic() {
    let result = calculate_rel_path("src/content", "blog", "post.mdx", "src/assets/image.png");
    assert!(result.contains(".."));
    assert!(result.contains("assets"));
}

#[test]
fn rel_path_exact_values() {
    assert_eq!(
        calculate_rel_path("src/content", "blog", "post.mdx", "src/assets/image.png"),
        "../../assets/image.png"
    );
    assert_eq!(
        calculate_rel_path("src/content", "blog", "guias/intro.mdx", "src/components/Notice.astro"),
        "../../../components/Notice.astro"
    );
    assert_eq!(calculate_rel_path("", "", "post.mdx", "img.png"), "./img.png");
    assert_eq!(
        calculate_rel_path("src\\content", "blog", "post.mdx", "src\\assets\\a.png"),
        "../../src/assets/a.png"
    );
}

#[test]
fn rel_path_is_always_relative() {
    for (cd, coll, file, target) in [
        ("src/content", "blog", "post.mdx", "src/assets/x.png"),
        ("src/content", "blog", "post.mdx", "src/content/blog/x.png"),
        ("a", "b", "c/d/e.md", "a/b/c/d/img.png"),
        ("", "", "", ""),
    ] {
        let r = calculate_rel_path(cd, coll, file, target);
        assert!(r.starts_with("./") || r.starts_with("../"), "{}", r);
    }
}

#[test]
fn extract_attr_takes_first_occurrence() {
    assert_eq!(extract_attr(r#"<Notice type="a" type="b">"#, "type"), Some("a".to_string()));
    assert_eq!(extract_attr(r#"<Notice type="unclosed>"#, "type"), None);
    assert_eq!(extract_attr(r#"<Notice subtype="x" type="y">"#, "type"), Some("x".to_string()));
}

#[test]
fn clean_imports_exact_text() {
    let text = "  import X from 'x';\nline\n<CTABox title=\"t\" />";
    assert_eq!(
        clean_imports_for_preview(text),
        "line\n\n--- \n> \u{1F4E2} **ANUNCIO (CTA)**\n title=\"t\" \n--- \n"
    );
}

#[test]
fn saved_document_reads_back() {
    let mut fm = YamlMapping::new();
    fm.insert("title", YamlValue::String("Hola".to_string()));
    fm.insert("draft", YamlValue::Bool(true));
    fm.insert("image", YamlValue::Null);
    let saved = serialize_content(&fm, "\n  # Cuerpo\n\ntexto");
    assert_eq!(saved, "---\ntitle: Hola\ndraft: true\n---\n\n# Cuerpo\n\ntexto");
    let parsed = parse_content(&saved);
    assert_eq!(parsed.body, "\n\n# Cuerpo\n\ntexto");
    assert_eq!(str_of(parsed.frontmatter.get("title")), Some("Hola"));
    assert_eq!(parsed.frontmatter.get("draft").and_then(|v| v.as_bool()), Some(true));
    assert!(parsed.frontmatter.get("image").is_none());
    assert_eq!(parsed.frontmatter.len(), 2);
}

#[test]
fn parse_keeps_body_after_second_delimiter() {
    let parsed = parse_content("---\na: 1\n---\nbody --- more");
    assert_eq!(parsed.body, "\nbody --- more");
    assert_eq!(parsed.frontmatter.len(), 1);
}

#[test]
fn fix_dots_twice_is_once() {
    let mut value = YamlValue::String("../assets/a.png".to_string());
    fix_dots_recursively(&mut value, "../../");
    assert_eq!(value.as_str().map(|s| s.as_str()), Some("../../assets/a.png"));
    fix_dots_recursively(&mut value, "../../");
    assert_eq!(value.as_str().map(|s| s.as_str()), Some("../../assets/a.png"));
}

#[test]
fn manual_links_point_to_assets() {
    assert_eq!(
        manual_with_assets("![x](assets/a.png) y](assets/b)", "C:\\app\\DOCS\\assets/"),
        "![x](file:///C:/app/DOCS/assets/a.png) y](file:///C:/app/DOCS/assets/b)"
    );
    assert_eq!(manual_with_assets("sin enlaces", "/d/"), "sin enlaces");
}
