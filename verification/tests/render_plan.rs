use yazelix_yazi_assets::{
    clock_reading_nanos, compute_yazi_render_plan, compute_yazi_render_plan_at,
    merged_plugin_load_order, pick_index, pick_index_from_nanos, resolve_yazi_theme,
    resolve_yazi_theme_at, theme_flavor_plan, validate_sort_by, yazi_render_plan_metadata,
    ThemeFlavorPlan, YaziConfigPackError, YaziRenderPlanRequest,
};

fn sample_request() -> YaziRenderPlanRequest {
    YaziRenderPlanRequest {
        yazi_theme: "default".into(),
        appearance_mode: "dark".into(),
        yazi_sort_by: "alphabetical".into(),
        yazi_plugins: None,
    }
}

fn strings(items: &[&str]) -> Vec<String> {
    items.iter().map(|s| s.to_string()).collect()
}

#[test]
fn rejects_invalid_sort_by() {
    let mut req = sample_request();
    req.yazi_sort_by = "not-a-sort".into();
    assert!(matches!(
        compute_yazi_render_plan(&req),
        Err(YaziConfigPackError::InvalidSortBy { .. })
    ));
}

#[test]
fn light_appearance_changes_default_theme_only() {
    let mut req = sample_request();
    req.appearance_mode = "light".into();
    let plan = compute_yazi_render_plan(&req).unwrap();
    assert_eq!(plan.resolved_theme, "catppuccin-latte");

    req.yazi_theme = "dracula".into();
    let plan = compute_yazi_render_plan(&req).unwrap();
    assert_eq!(plan.resolved_theme, "dracula");
}

#[test]
fn init_load_order_merges_core_then_user_deduped() {
    let mut req = sample_request();
    req.yazi_plugins = Some(vec![
        "git".into(),
        "sidebar-status".into(),
        "starship".into(),
    ]);
    let plan = compute_yazi_render_plan(&req).unwrap();
    assert_eq!(
        plan.init_lua.load_order,
        vec![
            "sidebar-status".to_string(),
            "auto-layout".to_string(),
            "sidebar-state".to_string(),
            "git".to_string(),
            "starship".to_string(),
        ]
    );
}

#[test]
fn invalid_sort_by_error_carries_value_and_allowed_list() {
    let mut req = sample_request();
    req.yazi_sort_by = "not-a-sort".into();
    match compute_yazi_render_plan(&req) {
        Err(YaziConfigPackError::InvalidSortBy { sort_by, allowed }) => {
            assert_eq!(sort_by, "not-a-sort");
            assert_eq!(allowed, yazi_render_plan_metadata().sort_by_allowed);
            assert!(allowed.contains(&"alphabetical".to_string()));
            assert!(allowed.contains(&"modified".to_string()));
        }
        other => panic!("unexpected result {other:?}"),
    }
}

#[test]
fn invalid_sort_by_message_matches_debug_formatting() {
    let err = validate_sort_by("weird \"sort\"").unwrap_err();
    let allowed = yazi_render_plan_metadata().sort_by_allowed;
    let expected = format!(
        "yazi.sort_by must be one of {allowed:?} (got {:?})",
        "weird \"sort\""
    );
    assert_eq!(err.message(), expected);
    assert!(err.message().contains("(got \"weird \\\"sort\\\"\")"));
}

#[test]
fn other_error_messages() {
    let e = YaziConfigPackError::InvalidEmbeddedToml {
        asset: "config_templates/yazelix_yazi.toml".into(),
        message: "bad key".into(),
    };
    assert_eq!(
        e.message(),
        "could not parse embedded config_templates/yazelix_yazi.toml: bad key"
    );
    let e = YaziConfigPackError::SerializeToml {
        message: "unsupported".into(),
    };
    assert_eq!(
        e.message(),
        "could not serialize generated Yazi TOML: unsupported"
    );
}

#[test]
fn default_plugins_enable_git_and_follow_core_plugins() {
    let plan = compute_yazi_render_plan(&sample_request()).unwrap();
    assert_eq!(plan.yazi_plugins, strings(&["git", "starship"]));
    assert!(plan.git_plugin_enabled);
    assert_eq!(plan.sort_by, "alphabetical");
    assert_eq!(plan.resolved_theme, "default");
    assert_eq!(plan.theme_flavor, ThemeFlavorPlan::NoFlavor);
    assert_eq!(
        plan.init_lua.core_plugins,
        strings(&["sidebar-status", "auto-layout", "sidebar-state"])
    );
    assert_eq!(
        plan.init_lua.load_order,
        strings(&["sidebar-status", "auto-layout", "sidebar-state", "git", "starship"])
    );
}

#[test]
fn empty_plugin_list_disables_git() {
    let mut req = sample_request();
    req.yazi_plugins = Some(vec![]);
    let plan = compute_yazi_render_plan(&req).unwrap();
    assert!(!plan.git_plugin_enabled);
    assert!(plan.yazi_plugins.is_empty());
    assert_eq!(
        plan.init_lua.load_order,
        strings(&["sidebar-status", "auto-layout", "sidebar-state"])
    );
}

#[test]
fn explicit_theme_gets_uniform_flavor() {
    let mut req = sample_request();
    req.yazi_theme = "dracula".into();
    req.yazi_sort_by = "modified".into();
    let plan = compute_yazi_render_plan(&req).unwrap();
    assert_eq!(plan.sort_by, "modified");
    assert_eq!(
        plan.theme_flavor,
        ThemeFlavorPlan::Uniform {
            flavor: "dracula".into()
        }
    );
}

#[test]
fn theme_flavor_plan_skips_default_and_random() {
    assert_eq!(theme_flavor_plan("default"), ThemeFlavorPlan::NoFlavor);
    assert_eq!(theme_flavor_plan("random"), ThemeFlavorPlan::NoFlavor);
    assert_eq!(
        theme_flavor_plan("nord"),
        ThemeFlavorPlan::Uniform {
            flavor: "nord".into()
        }
    );
}

#[test]
fn random_themes_pick_from_their_catalog() {
    let meta = yazi_render_plan_metadata();
    for _ in 0..5 {
        let dark = resolve_yazi_theme("random-dark");
        assert!(meta.themes_dark.contains(&dark), "{dark}");
        let light = resolve_yazi_theme("random-light");
        assert!(meta.themes_light.contains(&light), "{light}");
    }
    assert_eq!(resolve_yazi_theme("gruvbox-dark"), "gruvbox-dark");
    let mut req = sample_request();
    req.yazi_theme = "random-dark".into();
    let plan = compute_yazi_render_plan(&req).unwrap();
    assert!(meta.themes_dark.contains(&plan.resolved_theme));
    assert_eq!(
        plan.theme_flavor,
        ThemeFlavorPlan::Uniform {
            flavor: plan.resolved_theme.clone()
        }
    );
}

#[test]
fn light_mode_keeps_random_settings() {
    let mut req = sample_request();
    req.appearance_mode = "light".into();
    req.yazi_theme = "random-light".into();
    let plan = compute_yazi_render_plan(&req).unwrap();
    assert!(yazi_render_plan_metadata()
        .themes_light
        .contains(&plan.resolved_theme));
}

#[test]
fn pick_index_from_clock_reading() {
    assert_eq!(pick_index_from_nanos(Some(10), 3), 1);
    assert_eq!(pick_index_from_nanos(Some(9), 3), 0);
    assert_eq!(pick_index_from_nanos(None, 3), 0);
    assert_eq!(pick_index_from_nanos(Some(7), 0), 0);
    assert_eq!(pick_index(0), 0);
    assert!(pick_index(4) < 4);
}

#[test]
fn load_order_keeps_first_occurrence() {
    let order = merged_plugin_load_order(&strings(&[
        "starship",
        "auto-layout",
        "starship",
        "git",
    ]));
    assert_eq!(
        order,
        strings(&["sidebar-status", "auto-layout", "sidebar-state", "starship", "git"])
    );
}

#[test]
fn random_theme_at_a_clock_reading_is_fixed() {
    assert_eq!(resolve_yazi_theme_at("random-dark", Some(3)), "dracula");
    assert_eq!(resolve_yazi_theme_at("random-dark", Some(16 + 4)), "gruvbox-dark");
    assert_eq!(resolve_yazi_theme_at("random-dark", None), "catppuccin-mocha");
    assert_eq!(resolve_yazi_theme_at("random-light", Some(13)), "gruvbox-light");
    assert_eq!(resolve_yazi_theme_at("nord", Some(13)), "nord");
    let mut req = sample_request();
    req.yazi_theme = "random-dark".into();
    let a = compute_yazi_render_plan_at(&req, Some(10)).unwrap();
    let b = compute_yazi_render_plan_at(&req, Some(10)).unwrap();
    assert_eq!(a, b);
    assert_eq!(a.resolved_theme, "nord");
    assert_eq!(a.theme_flavor, ThemeFlavorPlan::Uniform { flavor: "nord".into() });
    assert!(compute_yazi_render_plan_at(
        &YaziRenderPlanRequest { yazi_sort_by: "nope".into(), ..sample_request() },
        Some(1)
    )
    .is_err());
    assert!(clock_reading_nanos().is_some());
}
