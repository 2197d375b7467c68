use yazelix_yazi_assets::{
    deep_merge_toml, merge_yazi_keymap, merge_yazi_toml_config, preserve_yazelix_edit_opener,
    upsert_nested_string, value_from_toml, TomlTable, TomlValue,
};

fn s(v: &str) -> TomlValue {
    TomlValue::String(v.to_string())
}

fn table(entries: Vec<(&str, TomlValue)>) -> TomlTable {
    let mut t = TomlTable::new();
    for (k, v) in entries {
        t.insert(k.to_string(), v);
    }
    t
}

fn get_str<'a>(t: &'a TomlTable, key: &str) -> Option<&'a str> {
    match t.get(key) {
        Some(TomlValue::String(v)) => Some(v.as_str()),
        _ => None,
    }
}

fn get_table<'a>(t: &'a TomlTable, key: &str) -> &'a TomlTable {
    match t.get(key) {
        Some(TomlValue::Table(v)) => v,
        other => panic!("{key} is not a table: {other:?}"),
    }
}

fn get_array<'a>(t: &'a TomlTable, key: &str) -> &'a Vec<TomlValue> {
    match t.get(key) {
        Some(TomlValue::Array(v)) => v,
        other => panic!("{key} is not an array: {other:?}"),
    }
}

#[test]
fn table_insert_get_remove() {
    let mut t = TomlTable::new();
    assert!(t.is_empty());
    t.insert("a".into(), TomlValue::Integer(1));
    t.insert("b".into(), s("x"));
    t.insert("a".into(), TomlValue::Integer(2));
    assert_eq!(t.len(), 2);
    assert!(t.contains_key("a"));
    assert!(matches!(t.get("a"), Some(TomlValue::Integer(2))));
    assert_eq!(t.keys(), vec!["a".to_string(), "b".to_string()]);
    assert!(matches!(t.remove("a"), Some(TomlValue::Integer(2))));
    assert!(t.remove("a").is_none());
    assert!(!t.contains_key("a"));
    assert_eq!(t.len(), 1);
}

#[test]
fn deep_merge_keeps_base_keys_and_user_wins() {
    let base = table(vec![
        ("mgr", TomlValue::Table(table(vec![("ratio", TomlValue::Integer(1)), ("show_hidden", TomlValue::Boolean(false))]))),
        ("keep", s("base")),
    ]);
    let user = table(vec![
        ("mgr", TomlValue::Table(table(vec![("show_hidden", TomlValue::Boolean(true))]))),
        ("extra", value_from_toml(toml::Value::Float(1.5))),
    ]);
    let merged = merge_yazi_toml_config(base, user);
    let mgr = get_table(&merged, "mgr");
    assert!(matches!(mgr.get("ratio"), Some(TomlValue::Integer(1))));
    assert!(matches!(mgr.get("show_hidden"), Some(TomlValue::Boolean(true))));
    assert_eq!(get_str(&merged, "keep"), Some("base"));
    assert!(matches!(merged.get("extra"), Some(TomlValue::Other(leaf)) if leaf.value().as_float() == Some(1.5)));
}

#[test]
fn deep_merge_scalar_user_replaces_table() {
    let mut base = TomlValue::Table(table(vec![("a", TomlValue::Integer(1))]));
    deep_merge_toml(&mut base, &s("flat"));
    assert!(matches!(&base, TomlValue::String(v) if v == "flat"));
}

#[test]
fn upsert_creates_nested_table() {
    let mut root = table(vec![("other", TomlValue::Integer(3))]);
    upsert_nested_string(&mut root, &["manager"], "sort_by", "modified");
    assert_eq!(get_str(get_table(&root, "manager"), "sort_by"), Some("modified"));
    upsert_nested_string(&mut root, &["manager"], "sort_by", "natural");
    assert_eq!(get_str(get_table(&root, "manager"), "sort_by"), Some("natural"));
    assert_eq!(get_table(&root, "manager").len(), 1);
    upsert_nested_string(&mut root, &[], "top", "v");
    assert_eq!(get_str(&root, "top"), Some("v"));
}

#[test]
fn edit_opener_survives_user_override() {
    let base = table(vec![(
        "opener",
        TomlValue::Table(table(vec![("edit", TomlValue::Array(vec![s("yazelix-edit")]))])),
    )]);
    let mut merged = table(vec![(
        "opener",
        TomlValue::Table(table(vec![
            ("edit", TomlValue::Array(vec![s("user-edit")])),
            ("play", s("mpv")),
        ])),
    )]);
    preserve_yazelix_edit_opener(&base, &mut merged);
    let opener = get_table(&merged, "opener");
    assert!(matches!(&get_array(opener, "edit")[0], TomlValue::String(v) if v == "yazelix-edit"));
    assert_eq!(get_str(opener, "play"), Some("mpv"));

    let mut without_opener = TomlTable::new();
    preserve_yazelix_edit_opener(&base, &mut without_opener);
    assert!(get_table(&without_opener, "opener").contains_key("edit"));

    let mut untouched = table(vec![("x", TomlValue::Integer(1))]);
    preserve_yazelix_edit_opener(&TomlTable::new(), &mut untouched);
    assert_eq!(untouched.len(), 1);
    assert!(!untouched.contains_key("opener"));
}

#[test]
fn keymap_merge_appends_user_bindings() {
    let binding = |run: &str| TomlValue::Table(table(vec![("run", s(run))]));
    let base = table(vec![(
        "mgr",
        TomlValue::Table(table(vec![
            ("prepend_keymap", TomlValue::Array(vec![binding("base")])),
            ("flag", s("base-flag")),
        ])),
    )]);
    let user = table(vec![
        (
            "mgr",
            TomlValue::Table(table(vec![
                ("prepend_keymap", TomlValue::Array(vec![binding("user1"), binding("user2")])),
                ("flag", s("user-flag")),
                ("append_keymap", TomlValue::Array(vec![binding("appended")])),
            ])),
        ),
        ("input", TomlValue::Table(table(vec![("k", TomlValue::Integer(1))]))),
        ("scalar", TomlValue::Integer(7)),
    ]);
    let merged = merge_yazi_keymap(base, user);
    let mgr = get_table(&merged, "mgr");
    let runs: Vec<String> = get_array(mgr, "prepend_keymap")
        .iter()
        .map(|b| match b {
            TomlValue::Table(t) => get_str(t, "run").unwrap().to_string(),
            _ => panic!("binding is not a table"),
        })
        .collect();
    assert_eq!(runs, vec!["base", "user1", "user2"]);
    assert_eq!(get_str(mgr, "flag"), Some("base-flag"));
    assert_eq!(get_array(mgr, "append_keymap").len(), 1);
    assert!(get_table(&merged, "input").contains_key("k"));
    assert!(matches!(merged.get("scalar"), Some(TomlValue::Integer(7))));
}

#[test]
fn keymap_merge_pushes_single_user_value() {
    let base = table(vec![(
        "mgr",
        TomlValue::Table(table(vec![("keymap", TomlValue::Array(vec![s("a")]))])),
    )]);
    let user = table(vec![(
        "mgr",
        TomlValue::Table(table(vec![("keymap", s("b"))])),
    )]);
    let merged = merge_yazi_keymap(base, user);
    let arr = get_array(get_table(&merged, "mgr"), "keymap");
    assert_eq!(arr.len(), 2);
    assert!(matches!(&arr[1], TomlValue::String(v) if v == "b"));
}

#[test]
fn keymap_user_table_replaces_non_table_base_section() {
    let base = table(vec![("mgr", s("odd"))]);
    let user = table(vec![(
        "mgr",
        TomlValue::Table(table(vec![("keymap", TomlValue::Array(vec![]))])),
    )]);
    let merged = merge_yazi_keymap(base, user);
    assert!(get_table(&merged, "mgr").contains_key("keymap"));
}
