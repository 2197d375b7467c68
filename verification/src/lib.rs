//! Reusable Yazi asset metadata and deterministic config-pack rendering.
//!
//! The library renders file contents from explicit inputs: it never reads user
//! config paths, generated state directories or host environment variables. The one
//! outside reading is the wall clock, by which a random theme setting picks its
//! theme; `compute_yazi_render_plan_at` takes that reading as an argument instead.

pub mod clock;
pub mod error;
pub mod merge;
pub mod metadata;
pub mod pack;
pub mod plan;
pub mod render;
pub mod text;
pub mod toml_model;
pub mod toml_text;

pub use clock::{clock_reading_nanos, pick_index, pick_index_from_nanos};
pub use error::YaziConfigPackError;
pub use merge::{
    deep_merge_toml, merge_yazi_keymap, merge_yazi_toml_config, preserve_yazelix_edit_opener,
    upsert_nested_string,
};
pub use metadata::{yazi_render_plan_metadata, YaziRenderPlanMetadata};
pub use pack::{
    parse_embedded_toml_table, plan_keymap_toml_table, plan_theme_toml_table, plan_yazi_toml_table,
    render_generated_init_lua, render_generated_keymap_toml, render_generated_theme_toml,
    render_generated_yazi_toml, render_yazi_config_pack, yazi_config_pack_renderable,
    yazi_edit_opener_preservable, YaziConfigPackRenderOutput, YaziConfigPackRenderRequest,
    YaziConfigPackTemplates,
};
pub use plan::{
    appearance_default_theme, compute_yazi_render_plan, compute_yazi_render_plan_at,
    default_appearance_mode,
    default_yazi_plugins, default_yazi_sort_by, default_yazi_theme, merged_plugin_load_order,
    resolve_yazi_theme, resolve_yazi_theme_at, theme_flavor_plan, validate_sort_by, InitLuaPlan, ThemeFlavorPlan,
    YaziRenderPlanData, YaziRenderPlanRequest,
};
pub use render::{generated_header, render_init_lua, render_runtime_root_placeholders};
pub use toml_model::{TomlTable, TomlValue};
pub use toml_text::{
    table_from_toml, table_to_toml, toml_table_from_str, toml_table_to_pretty_text,
    value_from_toml, value_to_toml, TomlLeaf,
};
