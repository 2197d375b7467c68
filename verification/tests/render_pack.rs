use yazelix_yazi_assets::{
    compute_yazi_render_plan, generated_header, plan_keymap_toml_table, plan_theme_toml_table,
    plan_yazi_toml_table, render_generated_keymap_toml, render_generated_theme_toml,
    render_generated_yazi_toml, render_init_lua, render_runtime_root_placeholders,
    render_yazi_config_pack, yazi_config_pack_renderable, TomlTable, TomlValue,
    YaziConfigPackRenderRequest, YaziConfigPackTemplates, YaziRenderPlanRequest,
};

fn s(v: &str) -> TomlValue {
    TomlValue::String(v.to_string())
}

fn table(entries: Vec<(&str, TomlValue)>) -> TomlTable {
    let mut t = TomlTable::new();
    for (k, v) in entries {
        t.insert(k.to_string(), v);
    }
    t
}

fn strings(items: &[&str]) -> Vec<String> {
    items.iter().map(|s| s.to_string()).collect()
}

fn get_table<'a>(t: &'a TomlTable, key: &str) -> &'a TomlTable {
    match t.get(key) {
        Some(TomlValue::Table(v)) => v,
        other => panic!("{key} is not a table: {other:?}"),
    }
}

fn get_str<'a>(t: &'a TomlTable, key: &str) -> Option<&'a str> {
    match t.get(key) {
        Some(TomlValue::String(v)) => Some(v.as_str()),
        _ => None,
    }
}

#[test]
fn runtime_placeholders_are_replaced() {
    assert_eq!(
        render_runtime_root_placeholders(
            "run = \"__YAZELIX_RUNTIME_DIR__/libexec/x\"\n__YAZELIX_RUNTIME_DIR__",
            "/runtime/yazelix"
        ),
        "run = \"/runtime/yazelix/libexec/x\"\n/runtime/yazelix"
    );
    assert_eq!(render_runtime_root_placeholders("no placeholder", "/r"), "no placeholder");
    assert_eq!(
        render_runtime_root_placeholders("__YAZELIX_RUNTIME_DIR_", "/r"),
        "__YAZELIX_RUNTIME_DIR_"
    );
}

#[test]
fn header_layout() {
    let h = generated_header("#", "TITLE", &["", "line one"]);
    assert_eq!(
        h,
        "# ========================================\n# TITLE\n# ========================================\n# This file is automatically generated by Yazelix.\n# Do not edit directly - changes will be lost!\n#\n# line one\n# ========================================\n"
    );
}

#[test]
fn init_lua_blocks_and_missing_plugins() {
    let (text, missing, appended) = render_init_lua(
        &strings(&["core-a", "starship", "my-plugin", "absent"]),
        &strings(&["core-a"]),
        &strings(&["core-a", "starship", "my-plugin"]),
        "/cfg/starship.toml",
        Some("-- mine\n__YAZELIX_RUNTIME_DIR__"),
        "/rt",
    );
    let header = generated_header(
        "--",
        "AUTO-GENERATED YAZI INIT.LUA",
        &[
            "",
            "To customize plugins, edit:",
            "  ~/.config/yazelix/settings.jsonc",
            "  [yazi] plugins = [...]",
            "",
            "For custom Lua code, create:",
            "  ~/.config/yazelix/yazi/init.lua",
            "",
        ],
    );
    let expected = format!(
        "{header}-- Core plugin (always loaded)\nrequire(\"core-a\"):setup()\n\n-- User plugin (from settings.jsonc)\nrequire(\"starship\"):setup({{\n    config_file = \"/cfg/starship.toml\"\n}})\n\n-- User plugin (from settings.jsonc)\nlocal _my_plugin = require(\"my-plugin\")\nif type(_my_plugin.setup) == \"function\" then _my_plugin:setup() end\n\n-- ========================================\n-- USER CUSTOM CODE\n-- ========================================\n-- From: ~/.config/yazelix/yazi/init.lua\n-- ========================================\n\n-- mine\n/rt"
    );
    assert_eq!(text, expected);
    assert_eq!(missing, strings(&["absent"]));
    assert!(appended);
}

fn sample_templates() -> YaziConfigPackTemplates {
    YaziConfigPackTemplates {
        yazi_toml: table(vec![
            (
                "opener",
                TomlValue::Table(table(vec![(
                    "edit",
                    TomlValue::Array(vec![TomlValue::Table(table(vec![(
                        "run",
                        s("__YAZELIX_RUNTIME_DIR__/libexec/yzx_control zellij open-editor %s"),
                    )]))]),
                )])),
            ),
            ("plugin", TomlValue::Table(table(vec![("prepend_fetchers", TomlValue::Array(vec![]))]))),
        ]),
        theme_toml: TomlTable::new(),
        keymap_toml: table(vec![("mgr", TomlValue::Table(table(vec![("prepend_keymap", TomlValue::Array(vec![]))])))]),
    }
}

#[test]
fn config_pack_tables_follow_plan() {
    let plan = compute_yazi_render_plan(&YaziRenderPlanRequest {
        yazi_theme: "dracula".into(),
        appearance_mode: "dark".into(),
        yazi_sort_by: "modified".into(),
        yazi_plugins: Some(strings(&["starship"])),
    })
    .unwrap();
    let templates = sample_templates();
    let user = table(vec![(
        "opener",
        TomlValue::Table(table(vec![("edit", TomlValue::Array(vec![s("user-edit")]))])),
    )]);
    let semantic = table(vec![(
        "mgr",
        TomlValue::Table(table(vec![("append_keymap", TomlValue::Array(vec![s("zoxide")]))])),
    )]);
    let available = strings(&["sidebar-status", "auto-layout", "sidebar-state", "starship"]);
    let request = YaziConfigPackRenderRequest {
        templates: &templates,
        runtime_dir: "/runtime/yazelix",
        starship_config_path: "/state/starship.toml",
        render_plan: &plan,
        user_yazi_config: Some(&user),
        user_keymap: None,
        user_init_lua: None,
        semantic_keymap: &semantic,
        available_plugins: &available,
    };
    assert!(yazi_config_pack_renderable(&request));
    let yazi_table = plan_yazi_toml_table(&request);
    let theme_table = plan_theme_toml_table(&request);
    let keymap_table = plan_keymap_toml_table(&request);
    let opener = get_table(&yazi_table, "opener");
    match opener.get("edit") {
        Some(TomlValue::Array(entries)) => match &entries[0] {
            TomlValue::Table(t) => assert_eq!(
                get_str(t, "run"),
                Some("__YAZELIX_RUNTIME_DIR__/libexec/yzx_control zellij open-editor %s")
            ),
            other => panic!("unexpected edit entry {other:?}"),
        },
        other => panic!("unexpected edit {other:?}"),
    }
    assert!(!yazi_table.contains_key("plugin"));
    assert_eq!(get_str(get_table(&yazi_table, "manager"), "sort_by"), Some("modified"));
    let theme = theme_table.as_ref().expect("flavor settings");
    let flavor = get_table(theme, "flavor");
    assert_eq!(get_str(flavor, "dark"), Some("dracula"));
    assert_eq!(get_str(flavor, "light"), Some("dracula"));
    let mgr = get_table(&keymap_table, "mgr");
    assert!(mgr.contains_key("append_keymap"));
    assert!(mgr.contains_key("prepend_keymap"));

    let yazi_text = render_generated_yazi_toml(&request).unwrap();
    let theme_text = render_generated_theme_toml(&request).unwrap();
    let keymap_text = render_generated_keymap_toml(&request).unwrap();
    let output = render_yazi_config_pack(&request).unwrap();
    assert_eq!(output.yazi_toml, yazi_text);
    assert_eq!(output.theme_toml, theme_text);
    assert_eq!(output.keymap_toml, keymap_text);
    assert!(output.yazi_toml.contains("# User config merged from:"));
    assert!(output.yazi_toml.contains("run = \"/runtime/yazelix/libexec/yzx_control zellij open-editor %s\""));
    assert!(output.yazi_toml.contains("sort_by = \"modified\""));
    assert!(!output.yazi_toml.contains("__YAZELIX_RUNTIME_DIR__"));
    assert!(!output.yazi_toml.contains("[plugin]"));
    assert!(output.theme_toml.contains("# Current theme: dracula"));
    assert!(output.theme_toml.ends_with("[flavor]\ndark = \"dracula\"\nlight = \"dracula\"\n"));
    assert!(output.keymap_toml.starts_with("# ========================================\n# AUTO-GENERATED YAZI KEYMAP\n"));
    assert!(output.keymap_toml.contains("[mgr]"));
    assert!(output.init_lua.contains("config_file = \"/state/starship.toml\""));
    assert!(output.missing_plugins.is_empty());
    assert!(!output.user_init_appended);
}

#[test]
fn default_theme_without_template_settings_has_no_theme_table() {
    let plan = compute_yazi_render_plan(&YaziRenderPlanRequest {
        yazi_theme: "default".into(),
        appearance_mode: "dark".into(),
        yazi_sort_by: "alphabetical".into(),
        yazi_plugins: None,
    })
    .unwrap();
    let templates = sample_templates();
    let semantic = TomlTable::new();
    let available = strings(&[]);
    let request = YaziConfigPackRenderRequest {
        templates: &templates,
        runtime_dir: "/rt",
        starship_config_path: "/s",
        render_plan: &plan,
        user_yazi_config: None,
        user_keymap: None,
        user_init_lua: None,
        semantic_keymap: &semantic,
        available_plugins: &available,
    };
    assert!(yazi_config_pack_renderable(&request));
    assert!(plan_theme_toml_table(&request).is_none());
    assert!(plan_yazi_toml_table(&request).contains_key("plugin"));
    let output = render_yazi_config_pack(&request).unwrap();
    assert!(output.yazi_toml.contains("[plugin]"));
    assert!(output.yazi_toml.contains("# To add custom settings, create:"));
    assert!(output.theme_toml.ends_with("# Current theme: default\n# ========================================\n"));
    assert_eq!(
        output.missing_plugins,
        strings(&["sidebar-status", "auto-layout", "sidebar-state", "git", "starship"])
    );
}

#[test]
fn non_table_manager_is_not_renderable() {
    let plan = compute_yazi_render_plan(&YaziRenderPlanRequest {
        yazi_theme: "default".into(),
        appearance_mode: "dark".into(),
        yazi_sort_by: "alphabetical".into(),
        yazi_plugins: None,
    })
    .unwrap();
    let templates = sample_templates();
    let semantic = TomlTable::new();
    let available = strings(&[]);
    let user = table(vec![("manager", s("flat"))]);
    let request = YaziConfigPackRenderRequest {
        templates: &templates,
        runtime_dir: "/rt",
        starship_config_path: "/s",
        render_plan: &plan,
        user_yazi_config: Some(&user),
        user_keymap: None,
        user_init_lua: None,
        semantic_keymap: &semantic,
        available_plugins: &available,
    };
    assert!(!yazi_config_pack_renderable(&request));
    let bad_opener = table(vec![("opener", s("flat"))]);
    let request2 = YaziConfigPackRenderRequest {
        user_yazi_config: Some(&bad_opener),
        ..request
    };
    assert!(!yazi_config_pack_renderable(&request2));
}

#[test]
fn available_plugins_count_by_membership_only() {
    let load_order = strings(&["sidebar-status", "git", "starship", "extra"]);
    let core = strings(&["sidebar-status"]);
    let a = strings(&["git", "sidebar-status", "starship"]);
    let b = strings(&["starship", "git", "git", "sidebar-status", "starship"]);
    let ra = render_init_lua(&load_order, &core, &a, "/s.toml", None, "/rt");
    let rb = render_init_lua(&load_order, &core, &b, "/s.toml", None, "/rt");
    assert_eq!(ra, rb);
    assert_eq!(ra.1, strings(&["extra"]));
}
