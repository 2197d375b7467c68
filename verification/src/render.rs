//! Rendering the generated Yazi config pack: file headers, runtime-root
//! placeholders, init.lua, and the TOML tables of yazi.toml, theme.toml and
//! keymap.toml.

use vstd::prelude::*;

use crate::plan::contains_string;
use crate::text::{
    concat, contains_seq, join_seqs, join_strings, lemma_replace_all_leaves_no_pattern,
    lemma_replace_all_without_pattern, map_char, map_char_str, owned, replace_all, replace_str,
    safe_replacement, views,
};

verus! {

broadcast use {vstd::seq_lib::lemma_seq_contains_after_push, vstd::string::group_string_axioms};

/// The placeholder that generated files use for the runtime directory.
pub open spec fn runtime_dir_placeholder() -> Seq<char> {
    "__YAZELIX_RUNTIME_DIR__"@
}

/// `content` with each runtime-directory placeholder replaced by `runtime_dir`.
pub fn render_runtime_root_placeholders(content: &str, runtime_dir: &str) -> (r: String)
    ensures
        r@ == replace_all(content@, runtime_dir_placeholder(), runtime_dir@),
{
    replace_str(content, "__YAZELIX_RUNTIME_DIR__", runtime_dir)
}

/// The border line of a generated header.
pub open spec fn header_border(comment: Seq<char>) -> Seq<char> {
    comment + " ========================================"@
}

/// A body line of a generated header: the bare comment marker for an empty line.
pub open spec fn header_body_line(comment: Seq<char>, line: Seq<char>) -> Seq<char> {
    if line.len() == 0 {
        comment
    } else {
        comment + " "@ + line
    }
}

/// The lines of a generated header, the last one empty.
pub open spec fn header_lines(comment: Seq<char>, title: Seq<char>, body: Seq<Seq<char>>) -> Seq<
    Seq<char>,
> {
    seq![
        header_border(comment),
        comment + " "@ + title,
        header_border(comment),
        comment + " This file is automatically generated by Yazelix."@,
        comment + " Do not edit directly - changes will be lost!"@,
    ] + body.map_values(|l: Seq<char>| header_body_line(comment, l)) + seq![
        header_border(comment),
        Seq::<char>::empty(),
    ]
}

/// A generated-file header: its lines joined by newlines, so that it ends in one.
pub open spec fn spec_generated_header(
    comment: Seq<char>,
    title: Seq<char>,
    body: Seq<Seq<char>>,
) -> Seq<char> {
    join_seqs(header_lines(comment, title, body), "\n"@)
}

/// The views of a list of string slices.
pub open spec fn str_views(s: Seq<&str>) -> Seq<Seq<char>> {
    s.map_values(|x: &str| x@)
}

/// The header that marks a file as generated, with `comment` as the line-comment
/// marker.
pub fn generated_header(comment: &str, title: &str, body: &[&str]) -> (r: String)
    ensures
        r@ == spec_generated_header(comment@, title@, str_views(body@)),
{
    let ghost c = comment@;
    let border = concat(comment, " ========================================");
    let mut lines: Vec<String> = Vec::new();
    lines.push(owned(border.as_str()));
    let mut t = concat(comment, " ");
    t.append(title);
    lines.push(t);
    lines.push(owned(border.as_str()));
    lines.push(concat(comment, " This file is automatically generated by Yazelix."));
    lines.push(concat(comment, " Do not edit directly - changes will be lost!"));
    let ghost first = seq![
        header_border(c),
        c + " "@ + title@,
        header_border(c),
        c + " This file is automatically generated by Yazelix."@,
        c + " Do not edit directly - changes will be lost!"@,
    ];
    let ghost mapped = str_views(body@).map_values(|l: Seq<char>| header_body_line(c, l));
    assert(views(lines@) =~= first);
    let mut i: usize = 0;
    while i < body.len()
        invariant
            i <= body@.len(),
            c == comment@,
            border@ == header_border(c),
            mapped == str_views(body@).map_values(|l: Seq<char>| header_body_line(c, l)),
            views(lines@) == first + mapped.take(i as int),
        decreases body@.len() - i,
    {
        let line: &str = body[i];
        let ghost before = lines@;
        if line.is_empty() {
            lines.push(owned(comment));
        } else {
            let mut l = concat(comment, " ");
            l.append(line);
            lines.push(l);
        }
        assert(mapped[i as int] == header_body_line(c, line@));
        assert(views(lines@) =~= views(before).push(mapped[i as int]));
        assert(mapped.take(i + 1) =~= mapped.take(i as int).push(mapped[i as int]));
        i = i + 1;
    }
    let ghost before = lines@;
    lines.push(owned(border.as_str()));
    lines.push(String::new());
    assert(mapped.take(i as int) =~= mapped);
    assert(views(lines@) =~= header_lines(c, title@, str_views(body@)));
    join_strings(&lines, "\n")
}

/// The init.lua block that loads one plugin.
pub open spec fn plugin_require_block(
    name: Seq<char>,
    core: Seq<Seq<char>>,
    starship_config_path: Seq<char>,
) -> Seq<char> {
    if core.contains(name) {
        "-- Core plugin (always loaded)\nrequire(\""@ + name + "\"):setup()"@
    } else if name == "starship"@ {
        "-- User plugin (from settings.jsonc)\nrequire(\"starship\"):setup({\n    config_file = \""@
            + starship_config_path + "\"\n})"@
    } else {
        let local = map_char(name, '-', '_');
        "-- User plugin (from settings.jsonc)\nlocal _"@ + local + " = require(\""@ + name
            + "\")\nif type(_"@ + local + ".setup) == \"function\" then _"@ + local
            + ":setup() end"@
    }
}

/// The init.lua block that loads one plugin.
fn render_plugin_require(name: &str, core_plugins: &Vec<String>, starship_config_path: &str) -> (r:
    String)
    ensures
        r@ == plugin_require_block(name@, views(core_plugins@), starship_config_path@),
{
    if contains_string(core_plugins.as_slice(), name) {
        let mut r = String::from_str("-- Core plugin (always loaded)\nrequire(\"");
        r.append(name);
        r.append("\"):setup()");
        r
    } else if crate::text::str_eq(name, "starship") {
        let mut r = String::from_str(
            "-- User plugin (from settings.jsonc)\nrequire(\"starship\"):setup({\n    config_file = \"",
        );
        r.append(starship_config_path);
        r.append("\"\n})");
        r
    } else {
        let local = map_char_str(name, '-', '_');
        let mut r = String::from_str("-- User plugin (from settings.jsonc)\nlocal _");
        r.append(local.as_str());
        r.append(" = require(\"");
        r.append(name);
        r.append("\")\nif type(_");
        r.append(local.as_str());
        r.append(".setup) == \"function\" then _");
        r.append(local.as_str());
        r.append(":setup() end");
        r
    }
}

/// The plugins of `names` that are (`keep`) or are not (`!keep`) in `available`, in order.
pub open spec fn filter_available(
    names: Seq<Seq<char>>,
    available: Seq<Seq<char>>,
    keep: bool,
) -> Seq<Seq<char>>
    decreases names.len(),
{
    if names.len() == 0 {
        names
    } else {
        let prefix = filter_available(names.drop_last(), available, keep);
        if available.contains(names.last()) == keep {
            prefix.push(names.last())
        } else {
            prefix
        }
    }
}

/// The section that appends the user's own init.lua.
pub open spec fn user_init_section(user_init: Seq<char>) -> Seq<char> {
    join_seqs(
        seq![
            ""@,
            "-- ========================================"@,
            "-- USER CUSTOM CODE"@,
            "-- ========================================"@,
            "-- From: ~/.config/yazelix/yazi/init.lua"@,
            "-- ========================================"@,
            ""@,
            user_init,
        ],
        "\n"@,
    )
}

/// The body lines of the init.lua header.
pub open spec fn init_lua_header_body() -> Seq<Seq<char>> {
    seq![
        ""@,
        "To customize plugins, edit:"@,
        "  ~/.config/yazelix/settings.jsonc"@,
        "  [yazi] plugins = [...]"@,
        ""@,
        "For custom Lua code, create:"@,
        "  ~/.config/yazelix/yazi/init.lua"@,
        ""@,
    ]
}

/// The generated init.lua: header, one require block per available plugin of the
/// load order (separated by blank lines), and the user's init.lua if given, with
/// runtime-directory placeholders replaced.
pub open spec fn init_lua_model(
    load_order: Seq<Seq<char>>,
    core: Seq<Seq<char>>,
    available: Seq<Seq<char>>,
    starship_config_path: Seq<char>,
    user_init: Option<Seq<char>>,
    runtime_dir: Seq<char>,
) -> Seq<char> {
    let valid = filter_available(load_order, available, true);
    let blocks = valid.map_values(|n: Seq<char>| plugin_require_block(n, core, starship_config_path));
    let content = spec_generated_header("--"@, "AUTO-GENERATED YAZI INIT.LUA"@, init_lua_header_body())
        + join_seqs(blocks, "\n\n"@) + "\n"@;
    let full = match user_init {
        Some(u) => content + user_init_section(u),
        None => content,
    };
    replace_all(full, runtime_dir_placeholder(), runtime_dir)
}

/// The optional view of an optional string slice.
pub open spec fn opt_str_view(s: Option<&str>) -> Option<Seq<char>> {
    match s {
        Some(x) => Some(x@),
        None => None,
    }
}

/// Renders init.lua; gives back the text, the plugins of the load order that are not
/// available, and whether the user's init.lua was appended.
pub fn render_init_lua(
    load_order: &Vec<String>,
    core_plugins: &Vec<String>,
    available_plugins: &Vec<String>,
    starship_config_path: &str,
    user_init_lua: Option<&str>,
    runtime_dir: &str,
) -> (r: (String, Vec<String>, bool))
    ensures
        r.0@ == init_lua_model(
            views(load_order@),
            views(core_plugins@),
            views(available_plugins@),
            starship_config_path@,
            opt_str_view(user_init_lua),
            runtime_dir@,
        ),
        views(r.1@) == filter_available(views(load_order@), views(available_plugins@), false),
        r.2 == user_init_lua.is_some(),
{
    let ghost names = views(load_order@);
    let ghost avail = views(available_plugins@);
    let ghost core = views(core_plugins@);
    let mut blocks: Vec<String> = Vec::new();
    let mut missing: Vec<String> = Vec::new();
    let mut i: usize = 0;
    while i < load_order.len()
        invariant
            i <= load_order@.len(),
            names == views(load_order@),
            avail == views(available_plugins@),
            core == views(core_plugins@),
            views(blocks@) == filter_available(names.take(i as int), avail, true).map_values(
                |n: Seq<char>| plugin_require_block(n, core, starship_config_path@),
            ),
            views(missing@) == filter_available(names.take(i as int), avail, false),
        decreases load_order@.len() - i,
    {
        let name = load_order[i].as_str();
        assert(names.take(i + 1).drop_last() =~= names.take(i as int));
        assert(names.take(i + 1).last() == name@);
        let ghost bb = blocks@;
        let ghost mb = missing@;
        if contains_string(available_plugins.as_slice(), name) {
            let block = render_plugin_require(name, core_plugins, starship_config_path);
            blocks.push(block);
            assert(views(blocks@) =~= views(bb).push(block@));
        } else {
            missing.push(owned(name));
            assert(views(missing@) =~= views(mb).push(name@));
        }
        i = i + 1;
        assert(views(blocks@) =~= filter_available(names.take(i as int), avail, true).map_values(
            |n: Seq<char>| plugin_require_block(n, core, starship_config_path@),
        ));
    }
    assert(names.take(i as int) =~= names);
    let require_blocks = join_strings(&blocks, "\n\n");
    let body = vec![
        "",
        "To customize plugins, edit:",
        "  ~/.config/yazelix/settings.jsonc",
        "  [yazi] plugins = [...]",
        "",
        "For custom Lua code, create:",
        "  ~/.config/yazelix/yazi/init.lua",
        "",
    ];
    assert(str_views(body@) =~= init_lua_header_body());
    let header = generated_header("--", "AUTO-GENERATED YAZI INIT.LUA", body.as_slice());
    let mut final_content = header;
    final_content.append(require_blocks.as_str());
    final_content.append("\n");
    let user_init_appended = user_init_lua.is_some();
    match user_init_lua {
        Some(user_init) => {
            let parts = vec![
                owned(""),
                owned("-- ========================================"),
                owned("-- USER CUSTOM CODE"),
                owned("-- ========================================"),
                owned("-- From: ~/.config/yazelix/yazi/init.lua"),
                owned("-- ========================================"),
                owned(""),
                owned(user_init),
            ];
            assert(views(parts@) =~= seq![
                ""@,
                "-- ========================================"@,
                "-- USER CUSTOM CODE"@,
                "-- ========================================"@,
                "-- From: ~/.config/yazelix/yazi/init.lua"@,
                "-- ========================================"@,
                ""@,
                user_init@,
            ]);
            let section = join_strings(&parts, "\n");
            final_content.append(section.as_str());
        },
        None => {},
    }
    let text = render_runtime_root_placeholders(final_content.as_str(), runtime_dir);
    (text, missing, user_init_appended)
}

/// The available and the missing plugins split the load order: every plugin of it
/// is in exactly one of the two lists, available ones in the first, the rest in the
/// second.
pub proof fn lemma_filter_available_partition(names: Seq<Seq<char>>, available: Seq<Seq<char>>)
    ensures
        filter_available(names, available, true).len() + filter_available(names, available, false).len()
            == names.len(),
        forall|x: Seq<char>| #[trigger] names.contains(x) <==> (filter_available(names, available, true).contains(x)
            || filter_available(names, available, false).contains(x)),
        forall|x: Seq<char>| #[trigger] filter_available(names, available, true).contains(x) ==> available.contains(x),
        forall|x: Seq<char>| #[trigger] filter_available(names, available, false).contains(x) ==> !available.contains(x),
    decreases names.len(),
{
    if names.len() > 0 {
        let p = names.drop_last();
        lemma_filter_available_partition(p, available);
        assert forall|x: Seq<char>| #[trigger] names.contains(x) <==> p.contains(x) || x == names.last() by {
            if names.contains(x) {
                let i = choose|i: int| 0 <= i < names.len() && names[i] == x;
                if i < p.len() {
                    assert(p[i] == x);
                }
            }
            if p.contains(x) {
                let i = choose|i: int| 0 <= i < p.len() && p[i] == x;
                assert(names[i] == x);
            }
            if x == names.last() {
                assert(names[names.len() - 1] == x);
            }
        }
    }
}

/// With a runtime directory that is a safe replacement for the placeholder (nonempty,
/// holding no placeholder, and neither starting nor ending with a character of the
/// placeholder, as `/runtime/yazelix` or `/Users/me/yazelix`), rendered text holds
/// no placeholder any more, and rendering it again changes nothing.
pub proof fn lemma_runtime_placeholders_resolved(content: Seq<char>, runtime_dir: Seq<char>)
    requires
        safe_replacement(runtime_dir_placeholder(), runtime_dir),
    ensures
        !contains_seq(
            replace_all(content, runtime_dir_placeholder(), runtime_dir),
            runtime_dir_placeholder(),
        ),
        replace_all(
            replace_all(content, runtime_dir_placeholder(), runtime_dir),
            runtime_dir_placeholder(),
            runtime_dir,
        ) == replace_all(content, runtime_dir_placeholder(), runtime_dir),
{
    reveal_strlit("__YAZELIX_RUNTIME_DIR__");
    lemma_replace_all_leaves_no_pattern(content, runtime_dir_placeholder(), runtime_dir);
    lemma_replace_all_without_pattern(
        replace_all(content, runtime_dir_placeholder(), runtime_dir),
        runtime_dir_placeholder(),
        runtime_dir,
    );
}

/// Only which plugins are available matters, not their order or repeats: two lists
/// with the same members split any load order alike, and give the same init.lua.
pub proof fn lemma_available_plugins_by_membership(
    names: Seq<Seq<char>>,
    a1: Seq<Seq<char>>,
    a2: Seq<Seq<char>>,
    keep: bool,
)
    requires
        forall|x: Seq<char>| #[trigger] a1.contains(x) <==> a2.contains(x),
    ensures
        filter_available(names, a1, keep) == filter_available(names, a2, keep),
        forall|core: Seq<Seq<char>>, path: Seq<char>, user: Option<Seq<char>>, dir: Seq<char>|
            #[trigger] init_lua_model(names, core, a1, path, user, dir) == init_lua_model(
                names,
                core,
                a2,
                path,
                user,
                dir,
            ),
    decreases names.len(),
{
    if names.len() > 0 {
        lemma_available_plugins_by_membership(names.drop_last(), a1, a2, keep);
        lemma_available_plugins_by_membership(names.drop_last(), a1, a2, true);
        assert(a1.contains(names.last()) == a2.contains(names.last()));
    }
}

/// The Lua local that loads a user plugin is a valid name for it: for a plugin that
/// is neither a core plugin nor `starship`, the block binds `_` followed by the
/// plugin name with every `-` turned into `_` (same length, no `-` left, every other
/// character kept) and calls its `setup` through that local.
pub proof fn lemma_require_block_local_name(
    name: Seq<char>,
    core: Seq<Seq<char>>,
    starship_config_path: Seq<char>,
)
    requires
        !core.contains(name),
        name != "starship"@,
    ensures
        exists|local: Seq<char>|
            {
                &&& local.len() == name.len()
                &&& !local.contains('-')
                &&& forall|i: int|
                    0 <= i < name.len() ==> #[trigger] local[i] == (if name[i] == '-' {
                        '_'
                    } else {
                        name[i]
                    })
                &&& plugin_require_block(name, core, starship_config_path)
                    == "-- User plugin (from settings.jsonc)\nlocal _"@ + local + " = require(\""@ + name
                    + "\")\nif type(_"@ + local + ".setup) == \"function\" then _"@ + local
                    + ":setup() end"@
            },
{
    let local = map_char(name, '-', '_');
    crate::text::lemma_map_char(name, '-', '_');
    assert forall|i: int| 0 <= i < name.len() implies #[trigger] local[i] == (if name[i] == '-' {
        '_'
    } else {
        name[i]
    }) by {}
}

/// Every line of a generated header is a comment: each starts with the comment
/// marker it was given (the border lines with the marker followed by the border),
/// except the empty line that ends it, and the header text starts with the marker.
pub proof fn lemma_header_lines_commented(comment: Seq<char>, title: Seq<char>, body: Seq<Seq<char>>)
    ensures
        header_lines(comment, title, body).len() == body.len() + 7,
        header_lines(comment, title, body).last() == Seq::<char>::empty(),
        forall|i: int|
            0 <= i < header_lines(comment, title, body).len() - 1 ==> #[trigger] header_lines(
                comment,
                title,
                body,
            )[i].len() >= comment.len() && header_lines(comment, title, body)[i].subrange(
                0,
                comment.len() as int,
            ) == comment,
        header_lines(comment, title, body)[0] == comment + " ========================================"@,
        header_lines(comment, title, body)[2] == comment + " ========================================"@,
        header_lines(comment, title, body)[body.len() + 5int] == comment
            + " ========================================"@,
        spec_generated_header(comment, title, body).len() >= comment.len(),
        spec_generated_header(comment, title, body).subrange(0, comment.len() as int) == comment,
{
    let ls = header_lines(comment, title, body);
    assert forall|i: int| 0 <= i < ls.len() - 1 implies #[trigger] ls[i].len() >= comment.len()
        && ls[i].subrange(0, comment.len() as int) == comment by {
        if 5 <= i < 5 + body.len() {
            let l = body[i - 5];
            assert(ls[i] == header_body_line(comment, l));
            if l.len() == 0 {
                assert(ls[i].subrange(0, comment.len() as int) =~= comment);
            } else {
                assert((comment + " "@ + l).subrange(0, comment.len() as int) =~= comment);
            }
        } else if i < 5 {
            assert(ls[i].subrange(0, comment.len() as int) =~= comment);
        } else {
            assert(ls[i] == header_border(comment));
            assert(ls[i].subrange(0, comment.len() as int) =~= comment);
        }
    }
    crate::text::lemma_join_seqs_prefix(ls, "\n"@);
    assert(spec_generated_header(comment, title, body).subrange(0, comment.len() as int) =~= ls[0].subrange(
        0,
        comment.len() as int,
    ));
}

} // verus!
