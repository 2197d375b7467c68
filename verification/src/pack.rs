//! The Yazi config pack: the TOML tables of yazi.toml, theme.toml and keymap.toml
//! planned from templates, user files and the render plan, written by the `toml`
//! crate and framed with their headers, and the pack that holds them.

use vstd::prelude::*;

use crate::error::YaziConfigPackError;
use crate::merge::{
    merge_keymap_model, merge_table_models, merge_yazi_keymap, merge_yazi_toml_config,
    path_views, preserve_opener_model, preserve_opener_ok, preserve_yazelix_edit_opener,
    upsert_model, upsert_nested_string, upsert_path_ok,
};
use crate::plan::YaziRenderPlanData;
use crate::render::{
    generated_header, init_lua_model, lemma_runtime_placeholders_resolved, opt_str_view,
    render_init_lua,
    render_runtime_root_placeholders, runtime_dir_placeholder, spec_generated_header, str_views,
};
use crate::text::{
    contains_seq, lemma_replace_all_without_pattern, owned, replace_all, safe_replacement, views,
};
use crate::toml_model::{TomlModel, TomlTable, TomlValue};
use crate::toml_text::{
    parsed_toml_table, toml_pretty_text, toml_table_from_str, toml_table_to_pretty_text,
};

verus! {

/// The bundled templates of the three generated TOML files.
#[derive(Debug)]
pub struct YaziConfigPackTemplates {
    pub yazi_toml: TomlTable,
    pub theme_toml: TomlTable,
    pub keymap_toml: TomlTable,
}

/// Whether `e` is the error for a bundled asset named `asset` that did not parse.
pub open spec fn is_embedded_toml_error(e: YaziConfigPackError, asset: &'static str) -> bool {
    e matches YaziConfigPackError::InvalidEmbeddedToml { asset: a, .. } && a == asset
}

/// A bundled TOML asset read as a table; fails, naming the asset, exactly where the
/// text is not a TOML document.
pub fn parse_embedded_toml_table(asset: &'static str, raw: &str) -> (r: Result<
    TomlTable,
    YaziConfigPackError,
>)
    ensures
        r is Ok <==> parsed_toml_table(raw@) is Some,
        r matches Ok(t) ==> parsed_toml_table(raw@) == Some(t.model()),
        r matches Err(e) ==> is_embedded_toml_error(e, asset),
{
    match toml_table_from_str(raw) {
        Ok(t) => Ok(t),
        Err(message) => Err(YaziConfigPackError::InvalidEmbeddedToml { asset, message }),
    }
}

impl YaziConfigPackTemplates {
    /// The templates read from the texts of the three bundled TOML assets, named by
    /// `assets` in that order; fails with the error of the first asset that does not
    /// parse.
    pub fn parse(assets: [&'static str; 3], yazi_toml: &str, theme_toml: &str, keymap_toml: &str) -> (r:
        Result<Self, YaziConfigPackError>)
        ensures
            r is Ok <==> (parsed_toml_table(yazi_toml@) is Some && parsed_toml_table(theme_toml@) is Some
                && parsed_toml_table(keymap_toml@) is Some),
            r matches Ok(t) ==> {
                &&& parsed_toml_table(yazi_toml@) == Some(t.yazi_toml.model())
                &&& parsed_toml_table(theme_toml@) == Some(t.theme_toml.model())
                &&& parsed_toml_table(keymap_toml@) == Some(t.keymap_toml.model())
            },
            r matches Err(e) ==> if parsed_toml_table(yazi_toml@) is None {
                is_embedded_toml_error(e, assets[0])
            } else if parsed_toml_table(theme_toml@) is None {
                is_embedded_toml_error(e, assets[1])
            } else {
                is_embedded_toml_error(e, assets[2])
            },
    {
        let yazi = match parse_embedded_toml_table(assets[0], yazi_toml) {
            Ok(t) => t,
            Err(e) => {
                return Err(e);
            },
        };
        let theme = match parse_embedded_toml_table(assets[1], theme_toml) {
            Ok(t) => t,
            Err(e) => {
                return Err(e);
            },
        };
        let keymap = match parse_embedded_toml_table(assets[2], keymap_toml) {
            Ok(t) => t,
            Err(e) => {
                return Err(e);
            },
        };
        Ok(YaziConfigPackTemplates { yazi_toml: yazi, theme_toml: theme, keymap_toml: keymap })
    }
}

/// Everything a config pack is rendered from.
#[derive(Debug)]
pub struct YaziConfigPackRenderRequest<'a> {
    pub templates: &'a YaziConfigPackTemplates,
    pub runtime_dir: &'a str,
    pub starship_config_path: &'a str,
    pub render_plan: &'a YaziRenderPlanData,
    pub user_yazi_config: Option<&'a TomlTable>,
    pub user_keymap: Option<&'a TomlTable>,
    pub user_init_lua: Option<&'a str>,
    pub semantic_keymap: &'a TomlTable,
    /// The names of the plugins that are installed. Only membership is read, so
    /// their order and any repeats make no difference.
    pub available_plugins: &'a Vec<String>,
}

/// The rendered config pack.
#[derive(Debug, Clone, PartialEq, Eq)]
pub struct YaziConfigPackRenderOutput {
    pub yazi_toml: String,
    pub theme_toml: String,
    pub keymap_toml: String,
    pub init_lua: String,
    pub missing_plugins: Vec<String>,
    pub user_init_appended: bool,
}

/// The model of an optional table.
pub open spec fn opt_table_model(t: Option<&TomlTable>) -> Option<Map<Seq<char>, TomlModel>> {
    match t {
        Some(x) => Some(x.model()),
        None => None,
    }
}

/// The base config with the user's config deep-merged in, if there is one.
pub open spec fn merged_yazi_model(
    template: Map<Seq<char>, TomlModel>,
    user: Option<Map<Seq<char>, TomlModel>>,
) -> Map<Seq<char>, TomlModel> {
    match user {
        Some(u) => merge_table_models(template, u),
        None => template,
    }
}

/// The merged config with the edit opener kept and, unless the git plugin is
/// enabled, without the `plugin` section.
pub open spec fn yazi_pre_upsert_model(
    template: Map<Seq<char>, TomlModel>,
    user: Option<Map<Seq<char>, TomlModel>>,
    git_enabled: bool,
) -> Map<Seq<char>, TomlModel> {
    let m = preserve_opener_model(template, merged_yazi_model(template, user));
    if git_enabled {
        m
    } else {
        m.remove("plugin"@)
    }
}

/// The generated yazi.toml table: the merged config, edit opener kept, `plugin`
/// dropped unless git is enabled, and `manager.sort_by` set from the plan.
pub open spec fn yazi_table_model(
    template: Map<Seq<char>, TomlModel>,
    user: Option<Map<Seq<char>, TomlModel>>,
    git_enabled: bool,
    sort_by: Seq<char>,
) -> Map<Seq<char>, TomlModel> {
    upsert_model(
        yazi_pre_upsert_model(template, user, git_enabled),
        seq!["manager"@],
        "sort_by"@,
        sort_by,
    )
}

/// Whether yazi.toml can be generated: the edit opener can be put back, and
/// `manager`, where present, is a table.
pub open spec fn yazi_table_renderable(
    template: Map<Seq<char>, TomlModel>,
    user: Option<Map<Seq<char>, TomlModel>>,
    git_enabled: bool,
) -> bool {
    &&& preserve_opener_ok(template, merged_yazi_model(template, user))
    &&& upsert_path_ok(yazi_pre_upsert_model(template, user, git_enabled), seq!["manager"@])
}

/// The generated theme table: the template with `flavor.dark` and `flavor.light`
/// set to the planned flavor, if any.
pub open spec fn theme_table_model(
    template: Map<Seq<char>, TomlModel>,
    flavor: Option<Seq<char>>,
) -> Map<Seq<char>, TomlModel> {
    match flavor {
        Some(f) => template.insert(
            "flavor"@,
            TomlModel::Table(
                Map::empty().insert("dark"@, TomlModel::Str(f)).insert("light"@, TomlModel::Str(f)),
            ),
        ),
        None => template,
    }
}

/// The generated keymap table: the template with the semantic keymap merged in, then
/// the user keymap, if any.
pub open spec fn keymap_table_model(
    template: Map<Seq<char>, TomlModel>,
    semantic: Map<Seq<char>, TomlModel>,
    user: Option<Map<Seq<char>, TomlModel>>,
) -> Map<Seq<char>, TomlModel> {
    let base = merge_keymap_model(template, semantic);
    match user {
        Some(u) => merge_keymap_model(base, u),
        None => base,
    }
}

/// Whether a request can be rendered.
pub open spec fn request_renderable(request: YaziConfigPackRenderRequest) -> bool {
    yazi_table_renderable(
        request.templates.yazi_toml.model(),
        opt_table_model(request.user_yazi_config),
        request.render_plan.git_plugin_enabled,
    )
}

/// The header body of yazi.toml.
pub open spec fn yazi_header_body(user_config_merged: bool) -> Seq<Seq<char>> {
    seq![
        ""@,
        if user_config_merged {
            "User config merged from:"@
        } else {
            "To add custom settings, create:"@
        },
        "  ~/.config/yazelix/yazi/yazi.toml"@,
        "Dynamic settings from ~/.config/yazelix/settings.jsonc:"@,
        "  [yazi] sort_by, plugins"@,
        ""@,
    ]
}

/// The header body of theme.toml.
pub open spec fn theme_header_body(resolved_theme: Seq<char>) -> Seq<Seq<char>> {
    seq![
        ""@,
        "To customize theme, edit:"@,
        "  ~/.config/yazelix/settings.jsonc"@,
        "  [yazi] theme = \"...\""@,
        ""@,
        "Current theme: "@ + resolved_theme,
    ]
}

/// The header body of keymap.toml.
pub open spec fn keymap_header_body() -> Seq<Seq<char>> {
    seq![""@, "To add custom keybindings, create:"@, "  ~/.config/yazelix/yazi/keymap.toml"@, ""@]
}

/// yazi.toml from its serialized table.
pub open spec fn yazi_toml_text(serialized: Seq<char>, user_config_merged: bool, runtime_dir: Seq<char>) -> Seq<char> {
    spec_generated_header("#"@, "AUTO-GENERATED YAZI CONFIG"@, yazi_header_body(user_config_merged))
        + replace_all(serialized, runtime_dir_placeholder(), runtime_dir)
}

/// theme.toml from its serialized table (empty when the table is).
pub open spec fn theme_toml_text(serialized: Option<Seq<char>>, resolved_theme: Seq<char>) -> Seq<char> {
    spec_generated_header("#"@, "AUTO-GENERATED YAZI THEME CONFIG"@, theme_header_body(resolved_theme))
        + match serialized {
        Some(s) => s,
        None => Seq::empty(),
    }
}

/// keymap.toml from its serialized table.
pub open spec fn keymap_toml_text(serialized: Seq<char>, runtime_dir: Seq<char>) -> Seq<char> {
    spec_generated_header("#"@, "AUTO-GENERATED YAZI KEYMAP"@, keymap_header_body())
        + replace_all(serialized, runtime_dir_placeholder(), runtime_dir)
}

/// The generated init.lua of a request.
pub open spec fn request_init_lua(request: YaziConfigPackRenderRequest) -> Seq<char> {
    init_lua_model(
        views(request.render_plan.init_lua.load_order@),
        views(request.render_plan.init_lua.core_plugins@),
        views(request.available_plugins@),
        request.starship_config_path@,
        opt_str_view(request.user_init_lua),
        request.runtime_dir@,
    )
}

/// Whether `v`, where present, is a table.
fn absent_or_table(v: Option<&TomlValue>) -> (r: bool)
    ensures
        r == match v {
            Some(x) => x.model() is Table,
            None => true,
        },
{
    match v {
        Some(TomlValue::Table(_)) => true,
        Some(_) => false,
        None => true,
    }
}

/// The base config with the user's config merged in.
fn merged_yazi_table(request: &YaziConfigPackRenderRequest) -> (r: TomlTable)
    ensures
        r.model() == merged_yazi_model(
            request.templates.yazi_toml.model(),
            opt_table_model(request.user_yazi_config),
        ),
{
    match request.user_yazi_config {
        Some(user_config) => merge_yazi_toml_config(
            request.templates.yazi_toml.deep_copy(),
            user_config.deep_copy(),
        ),
        None => request.templates.yazi_toml.deep_copy(),
    }
}

/// Whether the base config's edit opener can be put back into the merged config of
/// the request (the first check that rendering makes).
pub fn yazi_edit_opener_preservable(request: &YaziConfigPackRenderRequest) -> (r: bool)
    ensures
        r == preserve_opener_ok(
            request.templates.yazi_toml.model(),
            merged_yazi_model(
                request.templates.yazi_toml.model(),
                opt_table_model(request.user_yazi_config),
            ),
        ),
{
    let ghost template = request.templates.yazi_toml.model();
    let merged = merged_yazi_table(request);
    let needs_opener = match request.templates.yazi_toml.get("opener") {
        Some(TomlValue::Table(o)) => o.contains_key("edit"),
        _ => false,
    };
    assert(needs_opener == (crate::merge::base_edit_opener(template) is Some));
    !needs_opener || absent_or_table(merged.get("opener"))
}

/// Whether yazi.toml can be generated for the request (the check that rendering
/// makes before it walks `opener` and `manager`).
pub fn yazi_config_pack_renderable(request: &YaziConfigPackRenderRequest) -> (r: bool)
    ensures
        r == request_renderable(*request),
{
    let ghost template = request.templates.yazi_toml.model();
    let mut merged = merged_yazi_table(request);
    let needs_opener = match request.templates.yazi_toml.get("opener") {
        Some(TomlValue::Table(o)) => o.contains_key("edit"),
        _ => false,
    };
    assert(needs_opener == (crate::merge::base_edit_opener(template) is Some));
    if needs_opener && !absent_or_table(merged.get("opener")) {
        assert(!preserve_opener_ok(template, merged.model()));
        return false;
    }
    assert(preserve_opener_ok(template, merged.model()));
    preserve_yazelix_edit_opener(&request.templates.yazi_toml, &mut merged);
    if !request.render_plan.git_plugin_enabled {
        merged.remove("plugin");
    }
    let ok = absent_or_table(merged.get("manager"));
    proof {
        let m = yazi_pre_upsert_model(template, opt_table_model(request.user_yazi_config), request.render_plan.git_plugin_enabled);
        assert(merged.model() == m);
        let p = seq!["manager"@];
        assert(p[0] == "manager"@);
        assert(p.subrange(1, p.len() as int) =~= Seq::<Seq<char>>::empty());
        assert(upsert_path_ok(crate::merge::sub_table(m, p[0]), p.subrange(1, p.len() as int)));
        assert(ok == upsert_path_ok(m, p));
    }
    ok
}

/// The yazi.toml table of the request.
pub fn plan_yazi_toml_table(request: &YaziConfigPackRenderRequest) -> (r: TomlTable)
    requires
        request_renderable(*request),
    ensures
        r.model() == yazi_table_model(
            request.templates.yazi_toml.model(),
            opt_table_model(request.user_yazi_config),
            request.render_plan.git_plugin_enabled,
            request.render_plan.sort_by@,
        ),
{
    let mut final_config = merged_yazi_table(request);
    preserve_yazelix_edit_opener(&request.templates.yazi_toml, &mut final_config);
    if !request.render_plan.git_plugin_enabled {
        final_config.remove("plugin");
    }
    let path = vec!["manager"];
    assert(path_views(path@) =~= seq!["manager"@]);
    upsert_nested_string(
        &mut final_config,
        path.as_slice(),
        "sort_by",
        request.render_plan.sort_by.as_str(),
    );
    final_config
}

/// The theme.toml table of the request, `None` when it has no settings.
pub fn plan_theme_toml_table(request: &YaziConfigPackRenderRequest) -> (r: Option<TomlTable>)
    ensures
        match r {
            Some(t) => t.model() == theme_table_model(
                request.templates.theme_toml.model(),
                request.render_plan.theme_flavor.flavor_view(),
            ) && t.model() != Map::<Seq<char>, TomlModel>::empty(),
            None => theme_table_model(
                request.templates.theme_toml.model(),
                request.render_plan.theme_flavor.flavor_view(),
            ) == Map::<Seq<char>, TomlModel>::empty(),
        },
{
    let mut base_theme = request.templates.theme_toml.deep_copy();
    match &request.render_plan.theme_flavor {
        crate::plan::ThemeFlavorPlan::Uniform { flavor } => {
            let mut flavor_table = TomlTable::new();
            flavor_table.insert(owned("dark"), TomlValue::String(owned(flavor.as_str())));
            flavor_table.insert(owned("light"), TomlValue::String(owned(flavor.as_str())));
            base_theme.insert(owned("flavor"), TomlValue::Table(flavor_table));
        },
        crate::plan::ThemeFlavorPlan::NoFlavor => {},
    }
    if base_theme.is_empty() {
        None
    } else {
        Some(base_theme)
    }
}

/// The keymap.toml table of the request.
pub fn plan_keymap_toml_table(request: &YaziConfigPackRenderRequest) -> (r: TomlTable)
    ensures
        r.model() == keymap_table_model(
            request.templates.keymap_toml.model(),
            request.semantic_keymap.model(),
            opt_table_model(request.user_keymap),
        ),
{
    let base_keymap = merge_yazi_keymap(
        request.templates.keymap_toml.deep_copy(),
        request.semantic_keymap.deep_copy(),
    );
    match request.user_keymap {
        Some(user_keymap) => merge_yazi_keymap(base_keymap, user_keymap.deep_copy()),
        None => base_keymap,
    }
}

/// The yazi.toml table model of a request.
pub open spec fn request_yazi_table(request: YaziConfigPackRenderRequest) -> Map<Seq<char>, TomlModel> {
    yazi_table_model(
        request.templates.yazi_toml.model(),
        opt_table_model(request.user_yazi_config),
        request.render_plan.git_plugin_enabled,
        request.render_plan.sort_by@,
    )
}

/// The theme.toml table model of a request.
pub open spec fn request_theme_table(request: YaziConfigPackRenderRequest) -> Map<Seq<char>, TomlModel> {
    theme_table_model(
        request.templates.theme_toml.model(),
        request.render_plan.theme_flavor.flavor_view(),
    )
}

/// The keymap.toml table model of a request.
pub open spec fn request_keymap_table(request: YaziConfigPackRenderRequest) -> Map<Seq<char>, TomlModel> {
    keymap_table_model(
        request.templates.keymap_toml.model(),
        request.semantic_keymap.model(),
        opt_table_model(request.user_keymap),
    )
}

/// yazi.toml of a request: its table as the `toml` crate writes it, framed; `None`
/// where the table cannot be written.
pub open spec fn request_yazi_toml(request: YaziConfigPackRenderRequest) -> Option<Seq<char>> {
    match toml_pretty_text(request_yazi_table(request)) {
        Some(t) => Some(yazi_toml_text(t, request.user_yazi_config.is_some(), request.runtime_dir@)),
        None => None,
    }
}

/// theme.toml of a request: its table as the `toml` crate writes it (nothing for a
/// table with no settings), framed; `None` where the table cannot be written.
pub open spec fn request_theme_toml(request: YaziConfigPackRenderRequest) -> Option<Seq<char>> {
    let m = request_theme_table(request);
    if m == Map::<Seq<char>, TomlModel>::empty() {
        Some(theme_toml_text(None, request.render_plan.resolved_theme@))
    } else {
        match toml_pretty_text(m) {
            Some(t) => Some(theme_toml_text(Some(t), request.render_plan.resolved_theme@)),
            None => None,
        }
    }
}

/// keymap.toml of a request: its table as the `toml` crate writes it, framed; `None`
/// where the table cannot be written.
pub open spec fn request_keymap_toml(request: YaziConfigPackRenderRequest) -> Option<Seq<char>> {
    match toml_pretty_text(request_keymap_table(request)) {
        Some(t) => Some(keymap_toml_text(t, request.runtime_dir@)),
        None => None,
    }
}

/// Whether the three TOML files of a request can be written.
pub open spec fn request_serializable(request: YaziConfigPackRenderRequest) -> bool {
    &&& request_yazi_toml(request) is Some
    &&& request_theme_toml(request) is Some
    &&& request_keymap_toml(request) is Some
}

/// Whether `r` is the config pack rendered for the request.
pub open spec fn is_rendered_pack(request: YaziConfigPackRenderRequest, r: YaziConfigPackRenderOutput) -> bool {
    &&& request_yazi_toml(request) == Some(r.yazi_toml@)
    &&& request_theme_toml(request) == Some(r.theme_toml@)
    &&& request_keymap_toml(request) == Some(r.keymap_toml@)
    &&& r.init_lua@ == request_init_lua(request)
    &&& views(r.missing_plugins@) == crate::render::filter_available(
        views(request.render_plan.init_lua.load_order@),
        views(request.available_plugins@),
        false,
    )
    &&& r.user_init_appended == request.user_init_lua.is_some()
}

/// Whether two requests hold the same inputs, compared by their models and views.
pub open spec fn request_inputs_agree(a: YaziConfigPackRenderRequest, b: YaziConfigPackRenderRequest) -> bool {
    &&& a.templates.yazi_toml.model() == b.templates.yazi_toml.model()
    &&& a.templates.theme_toml.model() == b.templates.theme_toml.model()
    &&& a.templates.keymap_toml.model() == b.templates.keymap_toml.model()
    &&& a.runtime_dir@ == b.runtime_dir@
    &&& a.starship_config_path@ == b.starship_config_path@
    &&& a.render_plan.resolved_theme@ == b.render_plan.resolved_theme@
    &&& a.render_plan.sort_by@ == b.render_plan.sort_by@
    &&& a.render_plan.git_plugin_enabled == b.render_plan.git_plugin_enabled
    &&& a.render_plan.theme_flavor.flavor_view() == b.render_plan.theme_flavor.flavor_view()
    &&& views(a.render_plan.init_lua.core_plugins@) == views(b.render_plan.init_lua.core_plugins@)
    &&& views(a.render_plan.init_lua.load_order@) == views(b.render_plan.init_lua.load_order@)
    &&& opt_table_model(a.user_yazi_config) == opt_table_model(b.user_yazi_config)
    &&& opt_table_model(a.user_keymap) == opt_table_model(b.user_keymap)
    &&& opt_str_view(a.user_init_lua) == opt_str_view(b.user_init_lua)
    &&& a.semantic_keymap.model() == b.semantic_keymap.model()
    &&& views(a.available_plugins@) == views(b.available_plugins@)
}

/// A config pack depends on nothing but the inputs of its request: requests with the
/// same inputs are both renderable or both not, both written or both refused, and
/// get the same files, missing plugins and user-init flag.
pub proof fn lemma_config_pack_determined(
    req1: YaziConfigPackRenderRequest,
    req2: YaziConfigPackRenderRequest,
    out1: YaziConfigPackRenderOutput,
    out2: YaziConfigPackRenderOutput,
)
    requires
        request_inputs_agree(req1, req2),
    ensures
        request_renderable(req1) == request_renderable(req2),
        request_serializable(req1) == request_serializable(req2),
        is_rendered_pack(req1, out1) && is_rendered_pack(req2, out2) ==> {
            &&& out1.yazi_toml@ == out2.yazi_toml@
            &&& out1.theme_toml@ == out2.theme_toml@
            &&& out1.keymap_toml@ == out2.keymap_toml@
            &&& out1.init_lua@ == out2.init_lua@
            &&& views(out1.missing_plugins@) == views(out2.missing_plugins@)
            &&& out1.user_init_appended == out2.user_init_appended
        },
{
    assert(opt_str_view(req1.user_init_lua) is Some == req1.user_init_lua.is_some());
    assert(opt_str_view(req2.user_init_lua) is Some == req2.user_init_lua.is_some());
    assert(opt_table_model(req1.user_yazi_config) is Some == req1.user_yazi_config.is_some());
    assert(opt_table_model(req2.user_yazi_config) is Some == req2.user_yazi_config.is_some());
    assert(request_yazi_table(req1) == request_yazi_table(req2));
    assert(request_theme_table(req1) == request_theme_table(req2));
    assert(request_keymap_table(req1) == request_keymap_table(req2));
    assert(request_yazi_toml(req1) == request_yazi_toml(req2));
    assert(request_theme_toml(req1) == request_theme_toml(req2));
    assert(request_keymap_toml(req1) == request_keymap_toml(req2));
}

/// The serializer's failure, as the library's error.
fn serialize_error(message: String) -> (r: YaziConfigPackError)
    ensures
        r == (YaziConfigPackError::SerializeToml { message }),
{
    YaziConfigPackError::SerializeToml { message }
}

/// yazi.toml framed around its serialized table.
fn frame_yazi_toml(request: &YaziConfigPackRenderRequest, serialized: &str) -> (r: String)
    ensures
        r@ == yazi_toml_text(serialized@, request.user_yazi_config.is_some(), request.runtime_dir@),
{
    let user_note = if request.user_yazi_config.is_some() {
        "User config merged from:"
    } else {
        "To add custom settings, create:"
    };
    let body = vec![
        "",
        user_note,
        "  ~/.config/yazelix/yazi/yazi.toml",
        "Dynamic settings from ~/.config/yazelix/settings.jsonc:",
        "  [yazi] sort_by, plugins",
        "",
    ];
    assert(str_views(body@) =~= yazi_header_body(request.user_yazi_config.is_some()));
    let mut r = generated_header("#", "AUTO-GENERATED YAZI CONFIG", body.as_slice());
    let content = render_runtime_root_placeholders(serialized, request.runtime_dir);
    r.append(content.as_str());
    r
}

/// theme.toml framed around its serialized table (`None` for a table with no
/// settings).
fn frame_theme_toml(request: &YaziConfigPackRenderRequest, serialized: Option<&str>) -> (r: String)
    ensures
        r@ == theme_toml_text(opt_str_view(serialized), request.render_plan.resolved_theme@),
{
    let mut current_theme = String::from_str("Current theme: ");
    current_theme.append(request.render_plan.resolved_theme.as_str());
    let body = vec![
        "",
        "To customize theme, edit:",
        "  ~/.config/yazelix/settings.jsonc",
        "  [yazi] theme = \"...\"",
        "",
        current_theme.as_str(),
    ];
    assert(str_views(body@) =~= theme_header_body(request.render_plan.resolved_theme@));
    let mut r = generated_header("#", "AUTO-GENERATED YAZI THEME CONFIG", body.as_slice());
    match serialized {
        Some(s) => r.append(s),
        None => {},
    }
    assert(r@ =~= theme_toml_text(opt_str_view(serialized), request.render_plan.resolved_theme@));
    r
}

/// keymap.toml framed around its serialized table.
fn frame_keymap_toml(request: &YaziConfigPackRenderRequest, serialized: &str) -> (r: String)
    ensures
        r@ == keymap_toml_text(serialized@, request.runtime_dir@),
{
    let body = vec![
        "",
        "To add custom keybindings, create:",
        "  ~/.config/yazelix/yazi/keymap.toml",
        "",
    ];
    assert(str_views(body@) =~= keymap_header_body());
    let mut r = generated_header("#", "AUTO-GENERATED YAZI KEYMAP", body.as_slice());
    let content = render_runtime_root_placeholders(serialized, request.runtime_dir);
    r.append(content.as_str());
    r
}

/// The generated yazi.toml: the planned table written by the `toml` crate, with
/// runtime placeholders rendered, under its header; fails exactly where the table
/// cannot be written.
pub fn render_generated_yazi_toml(request: &YaziConfigPackRenderRequest) -> (r: Result<
    String,
    YaziConfigPackError,
>)
    requires
        request_renderable(*request),
    ensures
        match r {
            Ok(s) => request_yazi_toml(*request) == Some(s@),
            Err(e) => request_yazi_toml(*request) is None && e is SerializeToml,
        },
{
    let table = plan_yazi_toml_table(request);
    match toml_table_to_pretty_text(&table) {
        Ok(text) => Ok(frame_yazi_toml(request, text.as_str())),
        Err(message) => Err(serialize_error(message)),
    }
}

/// The generated theme.toml: the planned table written by the `toml` crate (nothing
/// when it has no settings) under its header; fails exactly where the table cannot
/// be written.
pub fn render_generated_theme_toml(request: &YaziConfigPackRenderRequest) -> (r: Result<
    String,
    YaziConfigPackError,
>)
    ensures
        match r {
            Ok(s) => request_theme_toml(*request) == Some(s@),
            Err(e) => request_theme_toml(*request) is None && e is SerializeToml,
        },
{
    match plan_theme_toml_table(request) {
        Some(table) => match toml_table_to_pretty_text(&table) {
            Ok(text) => Ok(frame_theme_toml(request, Some(text.as_str()))),
            Err(message) => Err(serialize_error(message)),
        },
        None => Ok(frame_theme_toml(request, None)),
    }
}

/// The generated keymap.toml: the planned table written by the `toml` crate, with
/// runtime placeholders rendered, under its header; fails exactly where the table
/// cannot be written.
pub fn render_generated_keymap_toml(request: &YaziConfigPackRenderRequest) -> (r: Result<
    String,
    YaziConfigPackError,
>)
    ensures
        match r {
            Ok(s) => request_keymap_toml(*request) == Some(s@),
            Err(e) => request_keymap_toml(*request) is None && e is SerializeToml,
        },
{
    let table = plan_keymap_toml_table(request);
    match toml_table_to_pretty_text(&table) {
        Ok(text) => Ok(frame_keymap_toml(request, text.as_str())),
        Err(message) => Err(serialize_error(message)),
    }
}

/// init.lua of the request, the plugins it could not load, and whether the user's
/// init.lua was appended.
pub fn render_generated_init_lua(request: &YaziConfigPackRenderRequest) -> (r: (
    String,
    Vec<String>,
    bool,
))
    ensures
        r.0@ == request_init_lua(*request),
        views(r.1@) == crate::render::filter_available(
            views(request.render_plan.init_lua.load_order@),
            views(request.available_plugins@),
            false,
        ),
        r.2 == request.user_init_lua.is_some(),
{
    render_init_lua(
        &request.render_plan.init_lua.load_order,
        &request.render_plan.init_lua.core_plugins,
        request.available_plugins,
        request.starship_config_path,
        request.user_init_lua,
        request.runtime_dir,
    )
}

/// The config pack of a request: yazi.toml, theme.toml, keymap.toml and init.lua,
/// the plugins that init.lua could not load, and whether the user's init.lua was
/// appended. Fails, with the serializer's message, exactly where one of the TOML
/// files cannot be written.
pub fn render_yazi_config_pack(request: &YaziConfigPackRenderRequest) -> (r: Result<
    YaziConfigPackRenderOutput,
    YaziConfigPackError,
>)
    requires
        request_renderable(*request),
    ensures
        r is Ok <==> request_serializable(*request),
        match r {
            Ok(o) => is_rendered_pack(*request, o),
            Err(e) => e is SerializeToml,
        },
{
    let yazi_toml = match render_generated_yazi_toml(request) {
        Ok(s) => s,
        Err(e) => {
            return Err(e);
        },
    };
    let theme_toml = match render_generated_theme_toml(request) {
        Ok(s) => s,
        Err(e) => {
            return Err(e);
        },
    };
    let keymap_toml = match render_generated_keymap_toml(request) {
        Ok(s) => s,
        Err(e) => {
            return Err(e);
        },
    };
    let (init_lua, missing_plugins, user_init_appended) = render_generated_init_lua(request);
    Ok(
        YaziConfigPackRenderOutput {
            yazi_toml,
            theme_toml,
            keymap_toml,
            init_lua,
            missing_plugins,
            user_init_appended,
        },
    )
}

broadcast use vstd::string::group_string_axioms;

/// The keys that the yazi.toml steps touch are distinct.
proof fn lemma_yazi_keys_distinct()
    ensures
        "opener"@ != "plugin"@,
        "manager"@ != "plugin"@,
        "manager"@ != "opener"@,
{
    reveal_strlit("opener");
    reveal_strlit("plugin");
    reveal_strlit("manager");
    assert("opener"@[0] != "plugin"@[0]);
    assert("manager"@.len() != "plugin"@.len());
    assert("manager"@.len() != "opener"@.len());
}

/// User settings cannot replace the Yazelix editor opener: when the template has
/// `opener.edit`, the generated yazi.toml has that same `opener.edit`.
pub proof fn lemma_yazi_table_keeps_edit_opener(
    template: Map<Seq<char>, TomlModel>,
    user: Option<Map<Seq<char>, TomlModel>>,
    git_enabled: bool,
    sort_by: Seq<char>,
)
    requires
        crate::merge::base_edit_opener(template) is Some,
    ensures
        yazi_table_model(template, user, git_enabled, sort_by).dom().contains("opener"@),
        yazi_table_model(template, user, git_enabled, sort_by)["opener"@] is Table,
        crate::merge::sub_table(yazi_table_model(template, user, git_enabled, sort_by), "opener"@).dom().contains(
            "edit"@,
        ),
        Some(
            crate::merge::sub_table(yazi_table_model(template, user, git_enabled, sort_by), "opener"@)["edit"@],
        ) == crate::merge::base_edit_opener(template),
{
    lemma_yazi_keys_distinct();
    let p = seq!["manager"@];
    assert(p[0] == "manager"@);
}

/// The generated yazi.toml sets `manager.sort_by` to the planned sort order.
pub proof fn lemma_yazi_table_sets_sort_by(
    template: Map<Seq<char>, TomlModel>,
    user: Option<Map<Seq<char>, TomlModel>>,
    git_enabled: bool,
    sort_by: Seq<char>,
)
    ensures
        yazi_table_model(template, user, git_enabled, sort_by).dom().contains("manager"@),
        yazi_table_model(template, user, git_enabled, sort_by)["manager"@] is Table,
        crate::merge::sub_table(yazi_table_model(template, user, git_enabled, sort_by), "manager"@).dom().contains(
            "sort_by"@,
        ),
        crate::merge::sub_table(yazi_table_model(template, user, git_enabled, sort_by), "manager"@)["sort_by"@]
            == TomlModel::Str(sort_by),
{
    let p = seq!["manager"@];
    assert(p[0] == "manager"@);
    assert(p.subrange(1, p.len() as int) =~= Seq::<Seq<char>>::empty());
    let m2 = yazi_pre_upsert_model(template, user, git_enabled);
    let sub = crate::merge::sub_table(m2, "manager"@);
    assert(upsert_model(sub, Seq::<Seq<char>>::empty(), "sort_by"@, sort_by) == sub.insert(
        "sort_by"@,
        TomlModel::Str(sort_by),
    ));
    assert(yazi_table_model(template, user, git_enabled, sort_by) == m2.insert(
        "manager"@,
        TomlModel::Table(sub.insert("sort_by"@, TomlModel::Str(sort_by))),
    ));
}

/// Without the git plugin, the generated yazi.toml has no `plugin` section.
pub proof fn lemma_yazi_table_drops_plugin_without_git(
    template: Map<Seq<char>, TomlModel>,
    user: Option<Map<Seq<char>, TomlModel>>,
    sort_by: Seq<char>,
)
    ensures
        !yazi_table_model(template, user, false, sort_by).dom().contains("plugin"@),
{
    lemma_yazi_keys_distinct();
    let p = seq!["manager"@];
    assert(p[0] == "manager"@);
}

/// A planned flavor sets both the dark and the light flavor of the theme file.
pub proof fn lemma_theme_table_uniform_flavor(template: Map<Seq<char>, TomlModel>, flavor: Seq<char>)
    ensures
        theme_table_model(template, Some(flavor)).dom().contains("flavor"@),
        crate::merge::sub_table(theme_table_model(template, Some(flavor)), "flavor"@)["dark"@]
            == TomlModel::Str(flavor),
        crate::merge::sub_table(theme_table_model(template, Some(flavor)), "flavor"@)["light"@]
            == TomlModel::Str(flavor),
        crate::merge::sub_table(theme_table_model(template, Some(flavor)), "flavor"@).dom().contains("dark"@),
        crate::merge::sub_table(theme_table_model(template, Some(flavor)), "flavor"@).dom().contains("light"@),
{
    reveal_strlit("dark");
    reveal_strlit("light");
    assert("dark"@.len() != "light"@.len());
}

/// Keymap bindings are concatenated in order: where the template, the semantic
/// keymap and the user keymap each hold an array at `section.sub`, the generated
/// keymap holds the template's bindings, then the semantic ones, then the user's.
pub proof fn lemma_keymap_table_concatenates_bindings(
    template: Map<Seq<char>, TomlModel>,
    semantic: Map<Seq<char>, TomlModel>,
    user: Map<Seq<char>, TomlModel>,
    section: Seq<char>,
    sub: Seq<char>,
    a: Seq<TomlModel>,
    b: Seq<TomlModel>,
    c: Seq<TomlModel>,
)
    requires
        template.dom().contains(section),
        template[section] is Table,
        crate::merge::sub_table(template, section).dom().contains(sub),
        crate::merge::sub_table(template, section)[sub] == TomlModel::Array(a),
        semantic.dom().contains(section),
        semantic[section] is Table,
        crate::merge::sub_table(semantic, section).dom().contains(sub),
        crate::merge::sub_table(semantic, section)[sub] == TomlModel::Array(b),
        user.dom().contains(section),
        user[section] is Table,
        crate::merge::sub_table(user, section).dom().contains(sub),
        crate::merge::sub_table(user, section)[sub] == TomlModel::Array(c),
    ensures
        keymap_table_model(template, semantic, Some(user)).dom().contains(section),
        keymap_table_model(template, semantic, Some(user))[section] is Table,
        crate::merge::sub_table(keymap_table_model(template, semantic, Some(user)), section).dom().contains(sub),
        crate::merge::sub_table(keymap_table_model(template, semantic, Some(user)), section)[sub]
            == TomlModel::Array(a + b + c),
{
    let base = merge_keymap_model(template, semantic);
    let bs = crate::merge::merge_section_model(
        crate::merge::sub_table(template, section),
        crate::merge::sub_table(semantic, section),
    );
    assert(base[section] == TomlModel::Table(bs));
    assert(bs[sub] == TomlModel::Array(a + b));
    assert(crate::merge::sub_table(base, section) == bs);
}

/// The generated yazi.toml is its planned table as the `toml` crate writes it,
/// placeholders rendered, under its header; in that table `manager.sort_by` is the
/// planned sort order, `plugin` is absent unless the git plugin is enabled, and the
/// template's `opener.edit`, where it has one, is kept.
pub proof fn lemma_generated_yazi_toml(request: YaziConfigPackRenderRequest, text: Seq<char>)
    requires
        request_yazi_toml(request) == Some(text),
    ensures
        toml_pretty_text(request_yazi_table(request)) matches Some(t) && text == yazi_toml_text(
            t,
            request.user_yazi_config.is_some(),
            request.runtime_dir@,
        ),
        crate::merge::sub_table(request_yazi_table(request), "manager"@)["sort_by"@] == TomlModel::Str(
            request.render_plan.sort_by@,
        ),
        !request.render_plan.git_plugin_enabled ==> !request_yazi_table(request).dom().contains(
            "plugin"@,
        ),
        crate::merge::base_edit_opener(request.templates.yazi_toml.model()) is Some ==> Some(
            crate::merge::sub_table(request_yazi_table(request), "opener"@)["edit"@],
        ) == crate::merge::base_edit_opener(request.templates.yazi_toml.model()),
{
    let template = request.templates.yazi_toml.model();
    let user = opt_table_model(request.user_yazi_config);
    let git = request.render_plan.git_plugin_enabled;
    let sort_by = request.render_plan.sort_by@;
    lemma_yazi_table_sets_sort_by(template, user, git, sort_by);
    if !git {
        lemma_yazi_table_drops_plugin_without_git(template, user, sort_by);
    }
    if crate::merge::base_edit_opener(template) is Some {
        lemma_yazi_table_keeps_edit_opener(template, user, git, sort_by);
    }
}

/// The generated theme.toml is its planned table as the `toml` crate writes it under
/// its header; with a planned flavor, that table's `flavor.dark` and `flavor.light`
/// are the flavor, and every other key of the template is kept as it is.
pub proof fn lemma_generated_theme_toml(request: YaziConfigPackRenderRequest, text: Seq<char>)
    requires
        request_theme_toml(request) == Some(text),
    ensures
        request_theme_table(request) == Map::<Seq<char>, TomlModel>::empty() ==> text
            == theme_toml_text(None, request.render_plan.resolved_theme@),
        request_theme_table(request) != Map::<Seq<char>, TomlModel>::empty() ==> (toml_pretty_text(
            request_theme_table(request),
        ) matches Some(t) && text == theme_toml_text(Some(t), request.render_plan.resolved_theme@)),
        request.render_plan.theme_flavor.flavor_view() matches Some(f) ==> {
            &&& crate::merge::sub_table(request_theme_table(request), "flavor"@)["dark"@]
                == TomlModel::Str(f)
            &&& crate::merge::sub_table(request_theme_table(request), "flavor"@)["light"@]
                == TomlModel::Str(f)
        },
        forall|k: Seq<char>|
            k != "flavor"@ && request.templates.theme_toml.model().dom().contains(k) ==> #[trigger] request_theme_table(
                request,
            )[k] == request.templates.theme_toml.model()[k],
        request.render_plan.theme_flavor.flavor_view() is None ==> request_theme_table(request)
            == request.templates.theme_toml.model(),
{
    match request.render_plan.theme_flavor.flavor_view() {
        Some(f) => {
            lemma_theme_table_uniform_flavor(request.templates.theme_toml.model(), f);
        },
        None => {},
    }
}

/// The generated keymap.toml is its planned table as the `toml` crate writes it,
/// placeholders rendered, under its header.
pub proof fn lemma_generated_keymap_toml(request: YaziConfigPackRenderRequest, text: Seq<char>)
    requires
        request_keymap_toml(request) == Some(text),
    ensures
        toml_pretty_text(request_keymap_table(request)) matches Some(t) && text == keymap_toml_text(
            t,
            request.runtime_dir@,
        ),
        text.subrange(0, spec_generated_header("#"@, "AUTO-GENERATED YAZI KEYMAP"@, keymap_header_body()).len() as int)
            == spec_generated_header("#"@, "AUTO-GENERATED YAZI KEYMAP"@, keymap_header_body()),
{
    let h = spec_generated_header("#"@, "AUTO-GENERATED YAZI KEYMAP"@, keymap_header_body());
    match toml_pretty_text(request_keymap_table(request)) {
        Some(t) => {
            let body = replace_all(t, runtime_dir_placeholder(), request.runtime_dir@);
            assert((h + body).subrange(0, h.len() as int) =~= h);
        },
        None => {},
    }
}

/// With a runtime directory that is a safe replacement (as `/runtime/yazelix`), the
/// generated keymap.toml is its header followed by the serialized keymap table with
/// every runtime placeholder replaced by the runtime directory: no placeholder is
/// left after the header, and a table whose text holds none comes through as it is.
pub proof fn lemma_generated_keymap_toml_resolves_placeholders(
    request: YaziConfigPackRenderRequest,
    text: Seq<char>,
)
    requires
        request_keymap_toml(request) == Some(text),
        safe_replacement(runtime_dir_placeholder(), request.runtime_dir@),
    ensures
        ({
            let h = spec_generated_header("#"@, "AUTO-GENERATED YAZI KEYMAP"@, keymap_header_body());
            let body = text.subrange(h.len() as int, text.len() as int);
            &&& h.len() <= text.len()
            &&& text.subrange(0, h.len() as int) == h
            &&& !contains_seq(body, runtime_dir_placeholder())
            &&& toml_pretty_text(request_keymap_table(request)) matches Some(t) && body == replace_all(
                t,
                runtime_dir_placeholder(),
                request.runtime_dir@,
            ) && (!contains_seq(t, runtime_dir_placeholder()) ==> body == t)
        }),
{
    let h = spec_generated_header("#"@, "AUTO-GENERATED YAZI KEYMAP"@, keymap_header_body());
    match toml_pretty_text(request_keymap_table(request)) {
        Some(t) => {
            let b = replace_all(t, runtime_dir_placeholder(), request.runtime_dir@);
            assert(text == h + b);
            assert(text.subrange(0, h.len() as int) =~= h);
            assert(text.subrange(h.len() as int, text.len() as int) =~= b);
            lemma_runtime_placeholders_resolved(t, request.runtime_dir@);
            if !contains_seq(t, runtime_dir_placeholder()) {
                lemma_replace_all_without_pattern(t, runtime_dir_placeholder(), request.runtime_dir@);
            }
        },
        None => {},
    }
}

/// With a runtime directory that is a safe replacement (as `/runtime/yazelix`), the
/// generated yazi.toml is its header followed by the serialized yazi table with every
/// runtime placeholder replaced by the runtime directory: no placeholder is left
/// after the header, and a table whose text holds none comes through as it is.
pub proof fn lemma_generated_yazi_toml_resolves_placeholders(
    request: YaziConfigPackRenderRequest,
    text: Seq<char>,
)
    requires
        request_yazi_toml(request) == Some(text),
        safe_replacement(runtime_dir_placeholder(), request.runtime_dir@),
    ensures
        ({
            let h = spec_generated_header(
                "#"@,
                "AUTO-GENERATED YAZI CONFIG"@,
                yazi_header_body(request.user_yazi_config.is_some()),
            );
            let body = text.subrange(h.len() as int, text.len() as int);
            &&& h.len() <= text.len()
            &&& text.subrange(0, h.len() as int) == h
            &&& !contains_seq(body, runtime_dir_placeholder())
            &&& toml_pretty_text(request_yazi_table(request)) matches Some(t) && body == replace_all(
                t,
                runtime_dir_placeholder(),
                request.runtime_dir@,
            ) && (!contains_seq(t, runtime_dir_placeholder()) ==> body == t)
        }),
{
    let h = spec_generated_header(
        "#"@,
        "AUTO-GENERATED YAZI CONFIG"@,
        yazi_header_body(request.user_yazi_config.is_some()),
    );
    match toml_pretty_text(request_yazi_table(request)) {
        Some(t) => {
            let b = replace_all(t, runtime_dir_placeholder(), request.runtime_dir@);
            assert(text == h + b);
            assert(text.subrange(0, h.len() as int) =~= h);
            assert(text.subrange(h.len() as int, text.len() as int) =~= b);
            lemma_runtime_placeholders_resolved(t, request.runtime_dir@);
            if !contains_seq(t, runtime_dir_placeholder()) {
                lemma_replace_all_without_pattern(t, runtime_dir_placeholder(), request.runtime_dir@);
            }
        },
        None => {},
    }
}

/// Setting `manager.sort_by` changes nothing else: every other key of the merged
/// config and every other key of its `manager` table keep their values in the
/// generated yazi.toml table.
pub proof fn lemma_yazi_sort_by_keeps_other_settings(
    template: Map<Seq<char>, TomlModel>,
    user: Option<Map<Seq<char>, TomlModel>>,
    git_enabled: bool,
    sort_by: Seq<char>,
)
    ensures
        ({
            let pre = yazi_pre_upsert_model(template, user, git_enabled);
            let gen = yazi_table_model(template, user, git_enabled, sort_by);
            &&& forall|k: Seq<char>|
                k != "manager"@ && #[trigger] pre.dom().contains(k) ==> gen.dom().contains(k)
                    && gen[k] == pre[k]
            &&& forall|k: Seq<char>|
                k != "sort_by"@ && #[trigger] crate::merge::sub_table(pre, "manager"@).dom().contains(k)
                    ==> crate::merge::sub_table(gen, "manager"@).dom().contains(k)
                    && crate::merge::sub_table(gen, "manager"@)[k] == crate::merge::sub_table(
                    pre,
                    "manager"@,
                )[k]
        }),
{
    let pre = yazi_pre_upsert_model(template, user, git_enabled);
    let p = seq!["manager"@];
    assert(p[0] == "manager"@);
    assert(p.subrange(1, p.len() as int) =~= Seq::<Seq<char>>::empty());
    crate::merge::lemma_upsert_keeps_other_keys(pre, p, "sort_by"@, sort_by);
    let sub = crate::merge::sub_table(pre, "manager"@);
    crate::merge::lemma_upsert_keeps_other_keys(sub, Seq::<Seq<char>>::empty(), "sort_by"@, sort_by);
}

} // verus!
