# yazelix_yazi_assets

Render plans and config packs for the Yazelix Yazi integration, verified with Verus.

- `src/plan.rs`, `src/metadata.rs`, `src/clock.rs`: the render plan (sort-order
  validation, effective plugins, theme resolution and flavor, init.lua load order).
  A random theme setting picks from its catalog by a clock reading;
  `compute_yazi_render_plan_at` and `resolve_yazi_theme_at` take that reading as an
  argument, and `compute_yazi_render_plan` reads the wall clock and passes it on.
- `src/toml_model.rs`, `src/merge.rs`: a TOML document model and the merges applied
  to it (deep merge of user settings, keymap merge, nested upsert, edit-opener
  preservation). Floats and datetimes are carried as the `toml` values they were
  read as.
- `src/toml_text.rs`: reading TOML text and `toml` tables into the model, and
  writing the model back through the `toml` crate.
- `src/render.rs`, `src/pack.rs`: headers, runtime-directory placeholders, init.lua,
  the yazi.toml, theme.toml and keymap.toml tables, their serialized and framed
  text, and `render_yazi_config_pack`, which renders the whole pack.
- `src/text.rs`, `src/error.rs`: string helpers and the error type.
- `app/`: serde derives of the plan types, and front-ends that take parsed `toml`
  tables as inputs and hand them to the library.
