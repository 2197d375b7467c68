use yazelix_yazi_assets::{
    compute_yazi_render_plan, render_yazi_config_pack, table_from_toml, yazi_config_pack_renderable,
    yazi_edit_opener_preservable, YaziConfigPackRenderRequest, YaziConfigPackTemplates,
    YaziRenderPlanRequest,
};

const TEMPLATE_ASSETS: [&str; 3] = [
    "config_templates/yazelix_yazi.toml",
    "config_templates/yazelix_theme.toml",
    "config_templates/yazelix_keymap.toml",
];

const YAZI_TEMPLATE: &str = r#"
[mgr]
ratio = [1, 3, 4]
scrolloff = 0.5

[opener]
edit = [{ run = "__YAZELIX_RUNTIME_DIR__/libexec/yzx_control zellij open-editor %s", block = true }]

[plugin]
prepend_fetchers = [{ id = "git", name = "*", run = "git" }]
"#;

const THEME_TEMPLATE: &str = r#"
[icon]
prepend_files = [
    { name = "README.md", text = "MD" },
    { name = "robots.txt", text = "T" },
    { name = "sitemap.xml", text = "<>" },
]
prepend_exts = [
    { name = "md", text = "MD" },
    { name = "txt", text = "T" },
    { name = "xml", text = "<>" },
]
"#;

const KEYMAP_TEMPLATE: &str = r#"
[mgr]
prepend_keymap = [{ on = ["<A-y>"], run = "plugin yazelix" }]
"#;

fn templates() -> YaziConfigPackTemplates {
    YaziConfigPackTemplates::parse(TEMPLATE_ASSETS, YAZI_TEMPLATE, THEME_TEMPLATE, KEYMAP_TEMPLATE)
        .unwrap()
}

fn has_icon(entries: &[toml::Value], name: &str, text: &str) -> bool {
    entries.iter().any(|entry| {
        entry.get("name").and_then(toml::Value::as_str) == Some(name)
            && entry.get("text").and_then(toml::Value::as_str) == Some(text)
    })
}

#[test]
fn render_yazi_config_pack_preserves_generated_contracts() {
    let runtime_dir = "/runtime/yazelix";
    let starship_config_path = "/state/configs/yazi/yazelix_starship.toml";
    let render_plan = compute_yazi_render_plan(&YaziRenderPlanRequest {
        yazi_theme: "dracula".to_string(),
        appearance_mode: "dark".to_string(),
        yazi_sort_by: "modified".to_string(),
        yazi_plugins: Some(vec![
            "git".to_string(),
            "starship".to_string(),
            "missing-plugin".to_string(),
        ]),
    })
    .unwrap();
    let available_plugins: Vec<String> = render_plan
        .init_lua
        .load_order
        .iter()
        .filter(|name| *name != "missing-plugin")
        .cloned()
        .collect();
    let user_yazi_config = table_from_toml(
        toml::from_str::<toml::Table>(
            r#"
[opener]
edit = [{ run = "user-edit" }]

[mgr]
ratio = [1, 4, 0]
"#,
        )
        .unwrap(),
    );
    let semantic_keymap = table_from_toml(
        toml::from_str::<toml::Table>(
            r#"[[mgr.append_keymap]]
on = ["<A-x>"]
run = "plugin zoxide-editor"
desc = "Open zoxide in editor"
"#,
        )
        .unwrap(),
    );
    let templates = templates();
    let request = YaziConfigPackRenderRequest {
        templates: &templates,
        runtime_dir,
        starship_config_path,
        render_plan: &render_plan,
        user_yazi_config: Some(&user_yazi_config),
        user_keymap: None,
        user_init_lua: Some("-- user init\nreturn true\n"),
        semantic_keymap: &semantic_keymap,
        available_plugins: &available_plugins,
    };
    assert!(yazi_edit_opener_preservable(&request));
    assert!(yazi_config_pack_renderable(&request));
    let rendered = render_yazi_config_pack(&request).unwrap();
    let parsed_yazi = toml::from_str::<toml::Value>(&rendered.yazi_toml).unwrap();
    let parsed_theme = toml::from_str::<toml::Value>(&rendered.theme_toml).unwrap();
    let parsed_keymap = toml::from_str::<toml::Value>(&rendered.keymap_toml).unwrap();

    assert_eq!(
        parsed_yazi
            .get("opener")
            .and_then(toml::Value::as_table)
            .and_then(|opener| opener.get("edit"))
            .and_then(toml::Value::as_array)
            .and_then(|entries| entries.first())
            .and_then(|entry| entry.get("run"))
            .and_then(toml::Value::as_str),
        Some("/runtime/yazelix/libexec/yzx_control zellij open-editor %s")
    );
    assert_eq!(
        parsed_yazi
            .get("mgr")
            .and_then(toml::Value::as_table)
            .and_then(|mgr| mgr.get("ratio"))
            .and_then(toml::Value::as_array)
            .unwrap(),
        &vec![1.into(), 4.into(), 0.into()]
    );
    assert_eq!(
        parsed_yazi
            .get("manager")
            .and_then(toml::Value::as_table)
            .and_then(|mgr| mgr.get("sort_by"))
            .and_then(toml::Value::as_str),
        Some("modified")
    );
    assert_eq!(
        parsed_keymap
            .get("mgr")
            .and_then(|section| section.get("append_keymap"))
            .and_then(toml::Value::as_array)
            .and_then(|entries| entries.first())
            .and_then(|entry| entry.get("run"))
            .and_then(toml::Value::as_str),
        Some("plugin zoxide-editor")
    );
    assert_eq!(rendered.missing_plugins, vec!["missing-plugin"]);
    assert!(rendered.init_lua.contains("require(\"starship\")"));
    assert!(rendered.init_lua.contains(starship_config_path));
    assert!(rendered.init_lua.contains("-- user init"));
    assert!(!rendered.yazi_toml.contains("__YAZELIX_RUNTIME_DIR__"));

    let icon = parsed_theme
        .get("icon")
        .and_then(toml::Value::as_table)
        .expect("generated theme icon table");
    let prepend_files = icon
        .get("prepend_files")
        .and_then(toml::Value::as_array)
        .expect("generated file icon overrides");
    let prepend_exts = icon
        .get("prepend_exts")
        .and_then(toml::Value::as_array)
        .expect("generated extension icon overrides");
    assert!(has_icon(prepend_files, "README.md", "MD"));
    assert!(has_icon(prepend_files, "robots.txt", "T"));
    assert!(has_icon(prepend_files, "sitemap.xml", "<>"));
    assert!(has_icon(prepend_exts, "md", "MD"));
    assert!(has_icon(prepend_exts, "txt", "T"));
    assert!(has_icon(prepend_exts, "xml", "<>"));
}

#[test]
fn config_pack_pipeline_round_trips_through_toml() {
    let render_plan = compute_yazi_render_plan(&YaziRenderPlanRequest {
        yazi_theme: "dracula".to_string(),
        appearance_mode: "dark".to_string(),
        yazi_sort_by: "natural".to_string(),
        yazi_plugins: Some(vec!["starship".to_string()]),
    })
    .unwrap();
    let available_plugins: Vec<String> = render_plan.init_lua.load_order.clone();
    let user_keymap = table_from_toml(
        toml::from_str::<toml::Table>(
            r#"
[mgr]
prepend_keymap = [{ on = ["<A-u>"], run = "plugin user" }]
"#,
        )
        .unwrap(),
    );
    let semantic_keymap = table_from_toml(
        toml::from_str::<toml::Table>(
            r#"
[mgr]
prepend_keymap = [{ on = ["<A-s>"], run = "plugin semantic" }]
"#,
        )
        .unwrap(),
    );
    let templates = templates();
    let request = YaziConfigPackRenderRequest {
        templates: &templates,
        runtime_dir: "/rt",
        starship_config_path: "/s.toml",
        render_plan: &render_plan,
        user_yazi_config: None,
        user_keymap: Some(&user_keymap),
        user_init_lua: None,
        semantic_keymap: &semantic_keymap,
        available_plugins: &available_plugins,
    };
    assert!(yazi_config_pack_renderable(&request));
    let rendered = render_yazi_config_pack(&request).unwrap();
    let parsed_yazi = toml::from_str::<toml::Value>(&rendered.yazi_toml).unwrap();
    let parsed_theme = toml::from_str::<toml::Value>(&rendered.theme_toml).unwrap();
    let parsed_keymap = toml::from_str::<toml::Value>(&rendered.keymap_toml).unwrap();
    assert!(rendered.yazi_toml.contains("# To add custom settings, create:"));
    assert_eq!(parsed_yazi["mgr"]["scrolloff"].as_float(), Some(0.5));
    assert_eq!(parsed_yazi["manager"]["sort_by"].as_str(), Some("natural"));
    assert!(parsed_yazi.get("plugin").is_none());
    assert_eq!(
        parsed_yazi["opener"]["edit"][0]["run"].as_str(),
        Some("/rt/libexec/yzx_control zellij open-editor %s")
    );
    assert_eq!(parsed_theme["flavor"]["dark"].as_str(), Some("dracula"));
    assert_eq!(parsed_theme["flavor"]["light"].as_str(), Some("dracula"));
    let runs: Vec<&str> = parsed_keymap["mgr"]["prepend_keymap"]
        .as_array()
        .unwrap()
        .iter()
        .map(|entry| entry["run"].as_str().unwrap())
        .collect();
    assert_eq!(runs, vec!["plugin yazelix", "plugin semantic", "plugin user"]);
    assert!(rendered.missing_plugins.is_empty());
    assert!(!rendered.user_init_appended);
    assert_eq!(render_yazi_config_pack(&request).unwrap(), rendered);
}
