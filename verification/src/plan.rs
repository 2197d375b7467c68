//! The render plan: validated sort order, effective plugins, resolved theme and
//! flavor, and the init.lua plugin load order.

use vstd::prelude::*;

use crate::clock::{clock_reading_nanos, pick_index_from_nanos, spec_pick_index_from_nanos};
use crate::error::YaziConfigPackError;
use crate::metadata::{
    spec_core_plugins, spec_default_plugins, spec_sort_by_allowed, spec_themes_dark, spec_themes_light,
    yazi_render_plan_metadata,
};
use crate::text::{owned, str_eq, views};

verus! {

broadcast use {vstd::seq_lib::lemma_seq_contains_after_push, vstd::string::group_string_axioms};

/// What a render plan is computed from.
#[derive(Debug, Clone, PartialEq, Eq)]
pub struct YaziRenderPlanRequest {
    pub yazi_theme: String,
    pub appearance_mode: String,
    pub yazi_sort_by: String,
    pub yazi_plugins: Option<Vec<String>>,
}

/// Which flavor the generated theme file selects.
#[derive(Debug, Clone, PartialEq, Eq)]
pub enum ThemeFlavorPlan {
    NoFlavor,
    Uniform { flavor: String },
}

/// The plugins that init.lua loads.
#[derive(Debug, Clone, PartialEq, Eq)]
pub struct InitLuaPlan {
    pub core_plugins: Vec<String>,
    pub load_order: Vec<String>,
}

/// Everything the config-pack renderer needs to know about the user's Yazi settings.
#[derive(Debug, Clone, PartialEq, Eq)]
pub struct YaziRenderPlanData {
    pub resolved_theme: String,
    pub sort_by: String,
    pub yazi_plugins: Vec<String>,
    pub git_plugin_enabled: bool,
    pub theme_flavor: ThemeFlavorPlan,
    pub init_lua: InitLuaPlan,
}

impl ThemeFlavorPlan {
    /// The flavor name, if one is selected.
    pub open spec fn flavor_view(self) -> Option<Seq<char>> {
        match self {
            ThemeFlavorPlan::NoFlavor => None,
            ThemeFlavorPlan::Uniform { flavor } => Some(flavor@),
        }
    }
}

/// `s` with later repetitions of an element dropped: the first occurrence wins.
pub open spec fn dedup_first(s: Seq<Seq<char>>) -> Seq<Seq<char>>
    decreases s.len(),
{
    if s.len() == 0 {
        s
    } else {
        let prefix = dedup_first(s.drop_last());
        if prefix.contains(s.last()) {
            prefix
        } else {
            prefix.push(s.last())
        }
    }
}

/// The theme that the appearance mode turns `configured` into: the light theme
/// replaces the implicit `default` theme in light mode, and nothing else changes.
pub open spec fn spec_appearance_default_theme(
    configured: Seq<char>,
    light: Seq<char>,
    mode: Seq<char>,
) -> Seq<char> {
    if mode == "light"@ && configured == "default"@ {
        light
    } else {
        configured
    }
}

/// Whether `resolved` is a possible resolution of the theme setting `config`:
/// `random-dark` and `random-light` pick from their catalog (or fall back to
/// `default` when it is empty); any other setting stands for itself.
pub open spec fn theme_resolution(config: Seq<char>, resolved: Seq<char>) -> bool {
    if config == "random-dark"@ {
        if spec_themes_dark().len() > 0 {
            spec_themes_dark().contains(resolved)
        } else {
            resolved == "default"@
        }
    } else if config == "random-light"@ {
        if spec_themes_light().len() > 0 {
            spec_themes_light().contains(resolved)
        } else {
            resolved == "default"@
        }
    } else {
        resolved == config
    }
}

/// The entry of `catalog` that the clock reading `nanos` picks, or `default` when the
/// catalog is empty.
pub open spec fn catalog_pick(catalog: Seq<Seq<char>>, nanos: Option<u128>) -> Seq<char> {
    if catalog.len() == 0 {
        "default"@
    } else {
        catalog[spec_pick_index_from_nanos(nanos, catalog.len() as usize) as int]
    }
}

/// The theme that the setting `config` resolves to at the clock reading `nanos`:
/// `random-dark` and `random-light` pick from their catalog, any other setting
/// stands for itself.
pub open spec fn spec_resolve_theme_at(config: Seq<char>, nanos: Option<u128>) -> Seq<char> {
    if config == "random-dark"@ {
        catalog_pick(spec_themes_dark(), nanos)
    } else if config == "random-light"@ {
        catalog_pick(spec_themes_light(), nanos)
    } else {
        config
    }
}

/// The flavor plan for a resolved theme: none for `default` and `random`, else that flavor.
pub open spec fn spec_theme_flavor(resolved: Seq<char>) -> Option<Seq<char>> {
    if resolved == "default"@ || resolved == "random"@ {
        None
    } else {
        Some(resolved)
    }
}

/// Whether `sort_by` is an allowed sort order.
pub open spec fn sort_by_allowed(sort_by: Seq<char>) -> bool {
    spec_sort_by_allowed().contains(sort_by)
}

/// The plugins a request enables: its own list, or the defaults.
pub open spec fn effective_plugins(request: YaziRenderPlanRequest) -> Seq<Seq<char>> {
    match request.yazi_plugins {
        Some(p) => views(p@),
        None => spec_default_plugins(),
    }
}

/// The theme setting after the appearance mode is applied.
pub open spec fn theme_config_of(request: YaziRenderPlanRequest) -> Seq<char> {
    spec_appearance_default_theme(
        request.yazi_theme@,
        "catppuccin-latte"@,
        request.appearance_mode@,
    )
}

/// The init.lua load order: core plugins, then the given plugins, each once.
pub open spec fn spec_load_order(plugins: Seq<Seq<char>>) -> Seq<Seq<char>> {
    dedup_first(spec_core_plugins() + plugins)
}

/// Whether `plan` is a render plan for `request`. Every field is determined by the
/// request but the resolved theme, which may be any catalog entry for a random setting.
pub open spec fn is_render_plan_for(request: YaziRenderPlanRequest, plan: YaziRenderPlanData) -> bool {
    &&& plan.sort_by@ == request.yazi_sort_by@
    &&& views(plan.yazi_plugins@) == effective_plugins(request)
    &&& plan.git_plugin_enabled == effective_plugins(request).contains("git"@)
    &&& theme_resolution(theme_config_of(request), plan.resolved_theme@)
    &&& plan.theme_flavor.flavor_view() == spec_theme_flavor(plan.resolved_theme@)
    &&& views(plan.init_lua.core_plugins@) == spec_core_plugins()
    &&& views(plan.init_lua.load_order@) == spec_load_order(effective_plugins(request))
}

/// Whether `plan` is the render plan for `request` at the clock reading `nanos`:
/// every field is determined by the two.
pub open spec fn is_render_plan_at(
    request: YaziRenderPlanRequest,
    nanos: Option<u128>,
    plan: YaziRenderPlanData,
) -> bool {
    &&& plan.sort_by@ == request.yazi_sort_by@
    &&& views(plan.yazi_plugins@) == effective_plugins(request)
    &&& plan.git_plugin_enabled == effective_plugins(request).contains("git"@)
    &&& plan.resolved_theme@ == spec_resolve_theme_at(theme_config_of(request), nanos)
    &&& plan.theme_flavor.flavor_view() == spec_theme_flavor(plan.resolved_theme@)
    &&& views(plan.init_lua.core_plugins@) == spec_core_plugins()
    &&& views(plan.init_lua.load_order@) == spec_load_order(effective_plugins(request))
}

/// The error a request with a sort order outside the allowed list gets.
pub open spec fn is_invalid_sort_by_error(e: YaziConfigPackError, sort_by: Seq<char>) -> bool {
    match e {
        YaziConfigPackError::InvalidSortBy { sort_by: s, allowed } => s@ == sort_by && views(
            allowed@,
        ) == spec_sort_by_allowed(),
        _ => false,
    }
}

/// The theme used when none is configured.
pub fn default_yazi_theme() -> (r: String)
    ensures
        r@ == "default"@,
{
    owned("default")
}

/// The sort order used when none is configured.
pub fn default_yazi_sort_by() -> (r: String)
    ensures
        r@ == "alphabetical"@,
{
    owned("alphabetical")
}

/// The plugins enabled when none are configured.
pub fn default_yazi_plugins() -> (r: Vec<String>)
    ensures
        views(r@) == spec_default_plugins(),
{
    yazi_render_plan_metadata().default_plugins
}

/// The appearance mode used when none is configured.
pub fn default_appearance_mode() -> (r: String)
    ensures
        r@ == "dark"@,
{
    owned("dark")
}

/// A copy of each string of `v`.
pub fn copy_strings(v: &[String]) -> (r: Vec<String>)
    ensures
        views(r@) == views(v@),
{
    let mut r: Vec<String> = Vec::new();
    let mut i: usize = 0;
    while i < v.len()
        invariant
            i <= v.len(),
            r@.len() == i,
            views(r@) == views(v@).take(i as int),
        decreases v.len() - i,
    {
        let ghost before = r@;
        r.push(owned(v[i].as_str()));
        assert(views(r@) =~= views(before).push(v@[i as int]@));
        assert(views(v@).take(i + 1) =~= views(v@).take(i as int).push(v@[i as int]@));
        i = i + 1;
    }
    assert(views(v@).take(v.len() as int) =~= views(v@));
    r
}

/// Whether some string of `v` equals `s`.
pub fn contains_string(v: &[String], s: &str) -> (r: bool)
    ensures
        r == views(v@).contains(s@),
{
    let mut i: usize = 0;
    while i < v.len()
        invariant
            i <= v.len(),
            forall|k: int| 0 <= k < i ==> views(v@)[k] != s@,
        decreases v.len() - i,
    {
        if str_eq(v[i].as_str(), s) {
            assert(views(v@)[i as int] == s@);
            return true;
        }
        i = i + 1;
    }
    false
}

/// The theme that the appearance mode turns `configured_theme` into.
pub fn appearance_default_theme(configured_theme: &str, light_theme: &str, mode: &str) -> (r: String)
    ensures
        r@ == spec_appearance_default_theme(configured_theme@, light_theme@, mode@),
{
    if str_eq(mode, "light") && str_eq(configured_theme, "default") {
        owned(light_theme)
    } else {
        owned(configured_theme)
    }
}

/// The entry of a catalog that the clock reading `nanos` picks, or `default` when
/// the catalog is empty.
fn pick_from_catalog(catalog: &Vec<String>, nanos: Option<u128>) -> (r: String)
    ensures
        r@ == catalog_pick(views(catalog@), nanos),
{
    let len = catalog.len();
    if len == 0 {
        owned("default")
    } else {
        let i = pick_index_from_nanos(nanos, len);
        assert(views(catalog@)[i as int] == catalog@[i as int]@);
        owned(catalog[i].as_str())
    }
}

/// The theme that a theme setting resolves to at the clock reading `nanos`: random
/// settings pick from their catalog by the reading.
pub fn resolve_yazi_theme_at(theme_config: &str, nanos: Option<u128>) -> (r: String)
    ensures
        r@ == spec_resolve_theme_at(theme_config@, nanos),
{
    let meta = yazi_render_plan_metadata();
    if str_eq(theme_config, "random-dark") {
        pick_from_catalog(&meta.themes_dark, nanos)
    } else if str_eq(theme_config, "random-light") {
        pick_from_catalog(&meta.themes_light, nanos)
    } else {
        owned(theme_config)
    }
}

/// Whatever the clock reads, a setting resolves to one of its possible themes.
pub proof fn lemma_resolve_theme_at_is_resolution(config: Seq<char>, nanos: Option<u128>)
    ensures
        theme_resolution(config, spec_resolve_theme_at(config, nanos)),
{
    let d = spec_themes_dark();
    let l = spec_themes_light();
    if d.len() > 0 {
        let i = spec_pick_index_from_nanos(nanos, d.len() as usize);
        assert(d.contains(d[i as int]));
    }
    if l.len() > 0 {
        let i = spec_pick_index_from_nanos(nanos, l.len() as usize);
        assert(l.contains(l[i as int]));
    }
}

/// The theme that a theme setting resolves to; random settings pick from their
/// catalog by the current time.
pub fn resolve_yazi_theme(theme_config: &str) -> (r: String)
    ensures
        theme_resolution(theme_config@, r@),
        exists|nanos: Option<u128>| r@ == spec_resolve_theme_at(theme_config@, nanos),
{
    let nanos = clock_reading_nanos();
    let r = resolve_yazi_theme_at(theme_config, nanos);
    proof {
        lemma_resolve_theme_at_is_resolution(theme_config@, nanos);
    }
    r
}

/// `Ok` exactly when `sort_by` is an allowed sort order.
pub fn validate_sort_by(sort_by: &str) -> (r: Result<(), YaziConfigPackError>)
    ensures
        r is Ok <==> sort_by_allowed(sort_by@),
        r matches Err(e) ==> is_invalid_sort_by_error(e, sort_by@),
{
    let meta = yazi_render_plan_metadata();
    if contains_string(meta.sort_by_allowed.as_slice(), sort_by) {
        Ok(())
    } else {
        Err(
            YaziConfigPackError::InvalidSortBy {
                sort_by: owned(sort_by),
                allowed: meta.sort_by_allowed,
            },
        )
    }
}

/// The core plugins followed by `user_plugins`, each plugin once, first occurrence first.
pub fn merged_plugin_load_order(user_plugins: &[String]) -> (r: Vec<String>)
    ensures
        views(r@) == spec_load_order(views(user_plugins@)),
{
    let meta = yazi_render_plan_metadata();
    let core = meta.core_plugins;
    let ghost all = spec_core_plugins() + views(user_plugins@);
    let mut out: Vec<String> = Vec::new();
    let mut i: usize = 0;
    while i < core.len()
        invariant
            i <= core.len(),
            views(core@) == spec_core_plugins(),
            all == spec_core_plugins() + views(user_plugins@),
            views(out@) == dedup_first(all.take(i as int)),
        decreases core.len() - i,
    {
        assert(all.take(i + 1).drop_last() =~= all.take(i as int));
        assert(all.take(i + 1).last() == views(core@)[i as int]);
        if !contains_string(out.as_slice(), core[i].as_str()) {
            out.push(owned(core[i].as_str()));
        }
        i = i + 1;
        assert(views(out@) =~= dedup_first(all.take(i as int)));
    }
    let mut j: usize = 0;
    while j < user_plugins.len()
        invariant
            j <= user_plugins.len(),
            views(core@) == spec_core_plugins(),
            all == spec_core_plugins() + views(user_plugins@),
            core.len() == spec_core_plugins().len(),
            views(out@) == dedup_first(all.take(core.len() + j)),
        decreases user_plugins.len() - j,
    {
        let ghost n = core.len() + j;
        assert(all.take(n + 1).drop_last() =~= all.take(n));
        assert(all.take(n + 1).last() == views(user_plugins@)[j as int]);
        if !contains_string(out.as_slice(), user_plugins[j].as_str()) {
            out.push(owned(user_plugins[j].as_str()));
        }
        j = j + 1;
        assert(views(out@) =~= dedup_first(all.take(core.len() + j)));
    }
    assert(all.take(core.len() + user_plugins.len()) =~= all);
    out
}

/// The flavor plan for a resolved theme.
pub fn theme_flavor_plan(resolved_theme: &str) -> (r: ThemeFlavorPlan)
    ensures
        r.flavor_view() == spec_theme_flavor(resolved_theme@),
{
    if str_eq(resolved_theme, "default") || str_eq(resolved_theme, "random") {
        ThemeFlavorPlan::NoFlavor
    } else {
        ThemeFlavorPlan::Uniform { flavor: owned(resolved_theme) }
    }
}

/// Computes the render plan for a request at the clock reading `nanos`: fails
/// exactly when the sort order is not allowed; otherwise every field follows from the
/// request and the reading.
pub fn compute_yazi_render_plan_at(request: &YaziRenderPlanRequest, nanos: Option<u128>) -> (r:
    Result<YaziRenderPlanData, YaziConfigPackError>)
    ensures
        r is Ok <==> sort_by_allowed(request.yazi_sort_by@),
        r matches Err(e) ==> is_invalid_sort_by_error(e, request.yazi_sort_by@),
        r matches Ok(plan) ==> is_render_plan_at(*request, nanos, plan),
{
    match validate_sort_by(request.yazi_sort_by.as_str()) {
        Ok(()) => {},
        Err(e) => {
            return Err(e);
        },
    }
    let yazi_plugins = match &request.yazi_plugins {
        Some(p) => copy_strings(p.as_slice()),
        None => default_yazi_plugins(),
    };
    let git_plugin_enabled = contains_string(yazi_plugins.as_slice(), "git");
    let theme_config = appearance_default_theme(
        request.yazi_theme.as_str(),
        "catppuccin-latte",
        request.appearance_mode.as_str(),
    );
    let resolved_theme = resolve_yazi_theme_at(theme_config.as_str(), nanos);
    let theme_flavor = theme_flavor_plan(resolved_theme.as_str());
    let load_order = merged_plugin_load_order(yazi_plugins.as_slice());
    let core_plugins = yazi_render_plan_metadata().core_plugins;
    Ok(
        YaziRenderPlanData {
            resolved_theme,
            sort_by: owned(request.yazi_sort_by.as_str()),
            yazi_plugins,
            git_plugin_enabled,
            theme_flavor,
            init_lua: InitLuaPlan { core_plugins, load_order },
        },
    )
}

/// A plan at some clock reading is a render plan for the request.
pub proof fn lemma_render_plan_at_is_render_plan(
    request: YaziRenderPlanRequest,
    nanos: Option<u128>,
    plan: YaziRenderPlanData,
)
    requires
        is_render_plan_at(request, nanos, plan),
    ensures
        is_render_plan_for(request, plan),
{
    lemma_resolve_theme_at_is_resolution(theme_config_of(request), nanos);
}

/// Computes the render plan for a request: fails exactly when the sort order is not
/// allowed; otherwise every field follows from the request, and a random theme
/// setting picks from its catalog by the current time.
pub fn compute_yazi_render_plan(request: &YaziRenderPlanRequest) -> (r: Result<
    YaziRenderPlanData,
    YaziConfigPackError,
>)
    ensures
        r is Ok <==> sort_by_allowed(request.yazi_sort_by@),
        r matches Err(e) ==> is_invalid_sort_by_error(e, request.yazi_sort_by@),
        r matches Ok(plan) ==> is_render_plan_for(*request, plan),
        r matches Ok(plan) ==> exists|nanos: Option<u128>| is_render_plan_at(*request, nanos, plan),
{
    let nanos = clock_reading_nanos();
    let r = compute_yazi_render_plan_at(request, nanos);
    proof {
        if r is Ok {
            lemma_render_plan_at_is_render_plan(*request, nanos, r->Ok_0);
        }
    }
    r
}

/// `dedup_first` keeps each element once, and exactly the elements of its input.
pub proof fn lemma_dedup_first(s: Seq<Seq<char>>)
    ensures
        dedup_first(s).no_duplicates(),
        forall|x: Seq<char>| #[trigger] dedup_first(s).contains(x) <==> s.contains(x),
    decreases s.len(),
{
    if s.len() > 0 {
        let p = s.drop_last();
        lemma_dedup_first(p);
        assert forall|x: Seq<char>| #[trigger] s.contains(x) <==> p.contains(x) || x == s.last() by {
            if s.contains(x) {
                let i = choose|i: int| 0 <= i < s.len() && s[i] == x;
                if i < p.len() {
                    assert(p[i] == x);
                }
            }
            if p.contains(x) {
                let i = choose|i: int| 0 <= i < p.len() && p[i] == x;
                assert(s[i] == x);
            }
            if x == s.last() {
                assert(s[s.len() - 1] == x);
            }
        }
        let d = dedup_first(p);
        if !d.contains(s.last()) {
            assert forall|i: int, j: int| 0 <= i < d.push(s.last()).len() && 0 <= j < d.push(
                s.last(),
            ).len() && i != j implies d.push(s.last())[i] != d.push(s.last())[j] by {
                if i < d.len() && j < d.len() {
                } else if i < d.len() {
                    assert(d.contains(d[i]));
                } else {
                    assert(d.contains(d[j]));
                }
            }
        }
    }
}

/// Elements after a prefix do not disturb the deduplicated prefix.
pub proof fn lemma_dedup_first_prefix(a: Seq<Seq<char>>, b: Seq<Seq<char>>)
    ensures
        dedup_first(a + b).len() >= dedup_first(a).len(),
        dedup_first(a + b).take(dedup_first(a).len() as int) == dedup_first(a),
    decreases b.len(),
{
    if b.len() == 0 {
        assert(a + b =~= a);
        assert(dedup_first(a).take(dedup_first(a).len() as int) =~= dedup_first(a));
    } else {
        lemma_dedup_first_prefix(a, b.drop_last());
        assert((a + b).drop_last() =~= a + b.drop_last());
        let d = dedup_first(a + b.drop_last());
        let n = dedup_first(a).len() as int;
        if !d.contains((a + b).last()) {
            assert(d.push((a + b).last()).take(n) =~= d.take(n));
        }
    }
}

/// A sequence without repetitions is its own deduplication.
pub proof fn lemma_dedup_first_distinct(s: Seq<Seq<char>>)
    requires
        s.no_duplicates(),
    ensures
        dedup_first(s) == s,
    decreases s.len(),
{
    if s.len() > 0 {
        let p = s.drop_last();
        assert(p.no_duplicates());
        lemma_dedup_first_distinct(p);
        lemma_dedup_first(p);
        if p.contains(s.last()) {
            let i = choose|i: int| 0 <= i < p.len() && p[i] == s.last();
            assert(s[i] == s[s.len() - 1]);
        }
        assert(p.push(s.last()) =~= s);
    }
}

/// The init.lua load order holds every core and every given plugin, each exactly
/// once, and starts with the core plugins in their order.
pub proof fn lemma_load_order(plugins: Seq<Seq<char>>)
    ensures
        spec_load_order(plugins).no_duplicates(),
        forall|x: Seq<char>| #[trigger] spec_load_order(plugins).contains(x) <==> (
        spec_core_plugins().contains(x) || plugins.contains(x)),
        spec_load_order(plugins).take(spec_core_plugins().len() as int) == spec_core_plugins(),
{
    let core = spec_core_plugins();
    lemma_dedup_first(core + plugins);
    assert forall|x: Seq<char>| #[trigger] (core + plugins).contains(x) <==> (core.contains(x)
        || plugins.contains(x)) by {
        if (core + plugins).contains(x) {
            let i = choose|i: int| 0 <= i < (core + plugins).len() && (core + plugins)[i] == x;
            if i < core.len() {
                assert(core[i] == x);
            } else {
                assert(plugins[i - core.len()] == x);
            }
        }
        if core.contains(x) {
            let i = choose|i: int| 0 <= i < core.len() && core[i] == x;
            assert((core + plugins)[i] == x);
        }
        if plugins.contains(x) {
            let i = choose|i: int| 0 <= i < plugins.len() && plugins[i] == x;
            assert((core + plugins)[core.len() + i] == x);
        }
    }
    reveal_strlit("sidebar-status");
    reveal_strlit("auto-layout");
    reveal_strlit("sidebar-state");
    assert("sidebar-status"@.len() == 14);
    assert("auto-layout"@.len() == 11);
    assert("sidebar-state"@.len() == 13);
    assert(core.no_duplicates());
    lemma_dedup_first_distinct(core);
    lemma_dedup_first_prefix(core, plugins);
}

/// Elements already present add nothing to a deduplication.
pub proof fn lemma_dedup_first_absorbs(a: Seq<Seq<char>>, b: Seq<Seq<char>>)
    requires
        forall|x: Seq<char>| #[trigger] b.contains(x) ==> a.contains(x),
    ensures
        dedup_first(a + b) == dedup_first(a),
    decreases b.len(),
{
    if b.len() == 0 {
        assert(a + b =~= a);
    } else {
        let p = b.drop_last();
        assert forall|x: Seq<char>| #[trigger] p.contains(x) implies a.contains(x) by {
            let i = choose|i: int| 0 <= i < p.len() && p[i] == x;
            assert(b[i] == x);
            assert(b.contains(x));
        }
        lemma_dedup_first_absorbs(a, p);
        assert((a + b).drop_last() =~= a + p);
        assert(b.contains(b.last())) by {
            assert(b[b.len() - 1] == b.last());
        }
        lemma_dedup_first(a + p);
        assert((a + p).contains(b.last())) by {
            let i = choose|i: int| 0 <= i < a.len() && a[i] == b.last();
            assert((a + p)[i] == b.last());
        }
    }
}

/// Deduplicating a prefix first does not change the deduplication of the whole.
pub proof fn lemma_dedup_first_of_dedup_prefix(a: Seq<Seq<char>>, b: Seq<Seq<char>>)
    ensures
        dedup_first(a + b) == dedup_first(dedup_first(a) + b),
    decreases b.len(),
{
    if b.len() == 0 {
        lemma_dedup_first(a);
        lemma_dedup_first_distinct(dedup_first(a));
        assert(a + b =~= a);
        assert(dedup_first(a) + b =~= dedup_first(a));
    } else {
        let p = b.drop_last();
        lemma_dedup_first_of_dedup_prefix(a, p);
        assert((a + b).drop_last() =~= a + p);
        assert((dedup_first(a) + b).drop_last() =~= dedup_first(a) + p);
    }
}

/// Computing the load order of a load order gives it back, and listing the plugins
/// twice gives the same load order as listing them once.
pub proof fn lemma_load_order_idempotent(plugins: Seq<Seq<char>>)
    ensures
        spec_load_order(spec_load_order(plugins)) == spec_load_order(plugins),
        spec_load_order(plugins + plugins) == spec_load_order(plugins),
{
    let core = spec_core_plugins();
    assert forall|x: Seq<char>| #[trigger] plugins.contains(x) implies (core + plugins).contains(
        x,
    ) by {
        let i = choose|i: int| 0 <= i < plugins.len() && plugins[i] == x;
        assert((core + plugins)[core.len() + i] == x);
    }
    lemma_dedup_first_absorbs(core + plugins, plugins);
    assert(core + (plugins + plugins) =~= (core + plugins) + plugins);
    reveal_strlit("sidebar-status");
    reveal_strlit("auto-layout");
    reveal_strlit("sidebar-state");
    assert("sidebar-status"@.len() == 14);
    assert("auto-layout"@.len() == 11);
    assert("sidebar-state"@.len() == 13);
    assert(core.no_duplicates());
    lemma_dedup_first_distinct(core);
    let l = spec_load_order(plugins);
    lemma_load_order(plugins);
    lemma_dedup_first_prefix(core, plugins);
    lemma_dedup_first(core + plugins);
    let rest = l.skip(core.len() as int);
    assert(l =~= core + rest);
    assert(core + l =~= (core + core) + rest);
    lemma_dedup_first_of_dedup_prefix(core + core, rest);
    lemma_dedup_first_absorbs(core, core);
    lemma_dedup_first_distinct(l);
}

/// The appearance mode changes only the implicit `default` theme: any other
/// configured theme comes through unchanged, whatever the mode.
pub proof fn lemma_appearance_changes_default_only(
    configured: Seq<char>,
    light: Seq<char>,
    mode: Seq<char>,
)
    ensures
        configured != "default"@ ==> spec_appearance_default_theme(configured, light, mode)
            == configured,
        mode != "light"@ ==> spec_appearance_default_theme(configured, light, mode) == configured,
{
}

/// A render plan is a function of its request and the clock reading: two plans for
/// requests with the same settings at the same reading agree on every field.
pub proof fn lemma_render_plan_at_determined(
    req1: YaziRenderPlanRequest,
    req2: YaziRenderPlanRequest,
    nanos: Option<u128>,
    p1: YaziRenderPlanData,
    p2: YaziRenderPlanData,
)
    requires
        req1.yazi_theme@ == req2.yazi_theme@,
        req1.appearance_mode@ == req2.appearance_mode@,
        req1.yazi_sort_by@ == req2.yazi_sort_by@,
        effective_plugins(req1) == effective_plugins(req2),
        is_render_plan_at(req1, nanos, p1),
        is_render_plan_at(req2, nanos, p2),
    ensures
        p1.resolved_theme@ == p2.resolved_theme@,
        p1.sort_by@ == p2.sort_by@,
        views(p1.yazi_plugins@) == views(p2.yazi_plugins@),
        p1.git_plugin_enabled == p2.git_plugin_enabled,
        p1.theme_flavor.flavor_view() == p2.theme_flavor.flavor_view(),
        views(p1.init_lua.core_plugins@) == views(p2.init_lua.core_plugins@),
        views(p1.init_lua.load_order@) == views(p2.init_lua.load_order@),
{
}

/// A render plan is a function of its request, except for the pick that a random
/// theme setting makes: two plans for the same request with a non-random theme
/// setting agree on every field.
pub proof fn lemma_render_plan_determined(
    request: YaziRenderPlanRequest,
    p1: YaziRenderPlanData,
    p2: YaziRenderPlanData,
)
    requires
        is_render_plan_for(request, p1),
        is_render_plan_for(request, p2),
        theme_config_of(request) != "random-dark"@,
        theme_config_of(request) != "random-light"@,
    ensures
        p1.resolved_theme@ == p2.resolved_theme@,
        p1.sort_by@ == p2.sort_by@,
        views(p1.yazi_plugins@) == views(p2.yazi_plugins@),
        p1.git_plugin_enabled == p2.git_plugin_enabled,
        p1.theme_flavor.flavor_view() == p2.theme_flavor.flavor_view(),
        views(p1.init_lua.core_plugins@) == views(p2.init_lua.core_plugins@),
        views(p1.init_lua.load_order@) == views(p2.init_lua.load_order@),
{
}

} // verus!
