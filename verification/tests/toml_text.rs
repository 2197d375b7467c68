use yazelix_yazi_assets::{
    merged_plugin_load_order, parse_embedded_toml_table, render_runtime_root_placeholders,
    table_from_toml, table_to_toml, toml_table_from_str, toml_table_to_pretty_text, value_to_toml,
    TomlTable, TomlValue, YaziConfigPackError,
    YaziConfigPackTemplates,
};

fn get_table<'a>(t: &'a TomlTable, key: &str) -> &'a TomlTable {
    match t.get(key) {
        Some(TomlValue::Table(v)) => v,
        other => panic!("{key} is not a table: {other:?}"),
    }
}

#[test]
fn reads_toml_text_into_the_model() {
    let t = toml_table_from_str(
        r#"
title = "x"
count = 3
ratio = 0.25
on = true
when = 1979-05-27T07:32:00Z
list = [1, "two"]

[nested.inner]
key = "v"
"#,
    )
    .unwrap();
    assert_eq!(t.len(), 7);
    assert!(matches!(t.get("title"), Some(TomlValue::String(s)) if s == "x"));
    assert!(matches!(t.get("count"), Some(TomlValue::Integer(3))));
    assert!(matches!(t.get("ratio"), Some(TomlValue::Other(leaf)) if leaf.value().as_float() == Some(0.25)));
    assert!(matches!(t.get("on"), Some(TomlValue::Boolean(true))));
    assert!(matches!(t.get("when"), Some(TomlValue::Other(leaf))
        if leaf.value().as_datetime().map(|d| d.to_string()) == Some("1979-05-27T07:32:00Z".to_string())));
    match t.get("list") {
        Some(TomlValue::Array(items)) => {
            assert!(matches!(items[0], TomlValue::Integer(1)));
            assert!(matches!(&items[1], TomlValue::String(s) if s == "two"));
        }
        other => panic!("unexpected list {other:?}"),
    }
    let inner = get_table(get_table(&t, "nested"), "inner");
    assert!(matches!(inner.get("key"), Some(TomlValue::String(s)) if s == "v"));
}

#[test]
fn converts_a_toml_table() {
    let raw: toml::Table = toml::from_str("a = 1\n[b]\nc = [true]\n").unwrap();
    let t = table_from_toml(raw);
    assert!(matches!(t.get("a"), Some(TomlValue::Integer(1))));
    assert!(get_table(&t, "b").contains_key("c"));
}

#[test]
fn rejects_text_that_is_not_toml() {
    let err = toml_table_from_str("a = = 1").unwrap_err();
    assert!(!err.is_empty());
}

#[test]
fn embedded_parse_errors_name_the_asset() {
    match parse_embedded_toml_table("config_templates/broken.toml", "[unclosed") {
        Err(YaziConfigPackError::InvalidEmbeddedToml { asset, message }) => {
            assert_eq!(asset, "config_templates/broken.toml");
            assert!(!message.is_empty());
        }
        other => panic!("unexpected {other:?}"),
    }
    assert!(parse_embedded_toml_table("ok.toml", "a = 1").is_ok());
}

#[test]
fn template_parse_reports_first_failing_asset() {
    let assets = ["yazi.toml", "theme.toml", "keymap.toml"];
    let t = YaziConfigPackTemplates::parse(assets, "[mgr]\nratio = [1]\n", "", "[mgr]\n").unwrap();
    assert!(t.yazi_toml.contains_key("mgr"));
    assert!(t.theme_toml.is_empty());
    assert!(t.keymap_toml.contains_key("mgr"));
    match YaziConfigPackTemplates::parse(assets, "a = 1", "= bad", "= bad") {
        Err(YaziConfigPackError::InvalidEmbeddedToml { asset, .. }) => assert_eq!(asset, "theme.toml"),
        other => panic!("unexpected {other:?}"),
    }
    match YaziConfigPackTemplates::parse(assets, "a = 1", "b = 2", "[x") {
        Err(YaziConfigPackError::InvalidEmbeddedToml { asset, .. }) => assert_eq!(asset, "keymap.toml"),
        other => panic!("unexpected {other:?}"),
    }
}

#[test]
fn rendering_placeholders_twice_changes_nothing() {
    let content = "run = \"__YAZELIX_RUNTIME_DIR__/x\" __YAZELIX_RUNTIME_DIR____YAZELIX_RUNTIME_DIR__";
    for dir in ["/Users/me/yazelix", "/runtime/yazelix", "/A_B/c"] {
        let once = render_runtime_root_placeholders(content, dir);
        assert!(!once.contains("__YAZELIX_RUNTIME_DIR__"));
        assert_eq!(render_runtime_root_placeholders(&once, dir), once);
    }
}

#[test]
fn load_order_is_idempotent_and_ignores_repeats() {
    let user: Vec<String> = ["git", "sidebar-state", "starship"].iter().map(|s| s.to_string()).collect();
    let once = merged_plugin_load_order(&user);
    assert_eq!(merged_plugin_load_order(&once), once);
    assert_eq!(merged_plugin_load_order(&[user.clone(), user.clone()].concat()), once);
}

#[test]
fn writes_library_tables_through_toml() {
    let t = toml_table_from_str("a = 1\nratio = 0.5\n[b]\nc = [\"x\"]\n").unwrap();
    let raw = table_to_toml(&t);
    assert_eq!(raw["a"].as_integer(), Some(1));
    assert_eq!(raw["ratio"].as_float(), Some(0.5));
    assert_eq!(raw["b"]["c"][0].as_str(), Some("x"));
    let text = toml_table_to_pretty_text(&t).unwrap();
    assert!(text.contains("ratio = 0.5"));
    let back: toml::Table = toml::from_str(&text).unwrap();
    assert_eq!(back, raw);
    assert_eq!(value_to_toml(&TomlValue::Integer(7)), toml::Value::Integer(7));
    assert_eq!(toml_table_to_pretty_text(&TomlTable::new()).unwrap(), "");
}
