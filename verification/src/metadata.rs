//! The render-plan metadata bundled with the Yazi assets: allowed sort orders,
//! default and core plugins, and the flavor catalogs used for random themes.

use vstd::prelude::*;

use crate::text::{owned, views};

verus! {

/// The bundled render-plan metadata.
#[derive(Debug, Clone, PartialEq, Eq)]
pub struct YaziRenderPlanMetadata {
    pub sort_by_allowed: Vec<String>,
    pub default_plugins: Vec<String>,
    pub themes_dark: Vec<String>,
    pub themes_light: Vec<String>,
    pub core_plugins: Vec<String>,
}

/// The values `yazi.sort_by` may take.
pub open spec fn spec_sort_by_allowed() -> Seq<Seq<char>> {
    seq!["alphabetical"@, "natural"@, "modified"@, "created"@, "size"@, "extension"@]
}

/// The plugins enabled when the request names none.
pub open spec fn spec_default_plugins() -> Seq<Seq<char>> {
    seq!["git"@, "starship"@]
}

/// The flavors that `random-dark` picks from.
pub open spec fn spec_themes_dark() -> Seq<Seq<char>> {
    seq![
        "catppuccin-mocha"@,
        "catppuccin-frappe"@,
        "catppuccin-macchiato"@,
        "dracula"@,
        "gruvbox-dark"@,
        "tokyo-night"@,
        "kanagawa"@,
        "kanagawa-dragon"@,
        "rose-pine"@,
        "rose-pine-moon"@,
        "nord"@,
        "everforest-medium"@,
        "ashen"@,
        "neon"@,
        "synthwave84"@,
        "monokai"@,
    ]
}

/// The flavors that `random-light` picks from.
pub open spec fn spec_themes_light() -> Seq<Seq<char>> {
    seq![
        "catppuccin-latte"@,
        "gruvbox-light"@,
        "kanagawa-lotus"@,
        "rose-pine-dawn"@,
        "flexoki-light"@,
        "bluloco-light"@,
    ]
}

/// The plugins that init.lua always loads, before any user plugin.
pub open spec fn spec_core_plugins() -> Seq<Seq<char>> {
    seq!["sidebar-status"@, "auto-layout"@, "sidebar-state"@]
}

/// The metadata, as its model.
pub open spec fn metadata_matches(m: YaziRenderPlanMetadata) -> bool {
    &&& views(m.sort_by_allowed@) == spec_sort_by_allowed()
    &&& views(m.default_plugins@) == spec_default_plugins()
    &&& views(m.themes_dark@) == spec_themes_dark()
    &&& views(m.themes_light@) == spec_themes_light()
    &&& views(m.core_plugins@) == spec_core_plugins()
}

/// The bundled render-plan metadata.
pub fn yazi_render_plan_metadata() -> (m: YaziRenderPlanMetadata)
    ensures
        metadata_matches(m),
{
    let sort_by_allowed = vec![
        owned("alphabetical"),
        owned("natural"),
        owned("modified"),
        owned("created"),
        owned("size"),
        owned("extension"),
    ];
    let default_plugins = vec![owned("git"), owned("starship")];
    let themes_dark = vec![
        owned("catppuccin-mocha"),
        owned("catppuccin-frappe"),
        owned("catppuccin-macchiato"),
        owned("dracula"),
        owned("gruvbox-dark"),
        owned("tokyo-night"),
        owned("kanagawa"),
        owned("kanagawa-dragon"),
        owned("rose-pine"),
        owned("rose-pine-moon"),
        owned("nord"),
        owned("everforest-medium"),
        owned("ashen"),
        owned("neon"),
        owned("synthwave84"),
        owned("monokai"),
    ];
    let themes_light = vec![
        owned("catppuccin-latte"),
        owned("gruvbox-light"),
        owned("kanagawa-lotus"),
        owned("rose-pine-dawn"),
        owned("flexoki-light"),
        owned("bluloco-light"),
    ];
    let core_plugins = vec![owned("sidebar-status"), owned("auto-layout"), owned("sidebar-state")];
    let m = YaziRenderPlanMetadata {
        sort_by_allowed,
        default_plugins,
        themes_dark,
        themes_light,
        core_plugins,
    };
    assert(views(m.sort_by_allowed@) =~= spec_sort_by_allowed());
    assert(views(m.default_plugins@) =~= spec_default_plugins());
    assert(views(m.themes_dark@) =~= spec_themes_dark());
    assert(views(m.themes_light@) =~= spec_themes_light());
    assert(views(m.core_plugins@) =~= spec_core_plugins());
    m
}

} // verus!
