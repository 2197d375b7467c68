//! Merging TOML documents: the deep merge of user settings into the generated
//! config, the keymap merge that appends user bindings, nested upserts, and the
//! preservation of the Yazelix edit opener.

use vstd::prelude::*;

use crate::plan::contains_string;
use crate::text::{owned, views};
use crate::toml_model::{
    TomlModel, TomlTable, TomlValue, entries_model, entry_keys, keys_distinct,
    lemma_entries_model, lemma_entries_model_prefix_step, lemma_entry_value_decreases,
    lemma_values_model, lemma_values_model_push, values_model,
};

verus! {

broadcast use vstd::seq_lib::lemma_seq_contains_after_push;

/// The deep merge of `user` into `base`: where both are tables, every key of either
/// is kept and a key of both holds the deep merge of its two values; anywhere else
/// the user value wins.
pub open spec fn deep_merge_model(base: TomlModel, user: TomlModel) -> TomlModel
    decreases user,
{
    match user {
        TomlModel::Table(u) => match base {
            TomlModel::Table(b) => TomlModel::Table(
                Map::new(
                    |k: Seq<char>| b.dom().contains(k) || u.dom().contains(k),
                    |k: Seq<char>|
                        if u.dom().contains(k) {
                            if b.dom().contains(k) {
                                deep_merge_model(b[k], u[k])
                            } else {
                                u[k]
                            }
                        } else {
                            b[k]
                        },
                ),
            ),
            _ => user,
        },
        _ => user,
    }
}

/// The deep merge of table `u` into table `b`.
pub open spec fn merge_table_models(
    b: Map<Seq<char>, TomlModel>,
    u: Map<Seq<char>, TomlModel>,
) -> Map<Seq<char>, TomlModel> {
    match deep_merge_model(TomlModel::Table(b), TomlModel::Table(u)) {
        TomlModel::Table(m) => m,
        _ => b,
    }
}

/// Merging one more user key into a partial merge.
pub proof fn lemma_merge_table_step(
    b: Map<Seq<char>, TomlModel>,
    u: Map<Seq<char>, TomlModel>,
    k: Seq<char>,
    v: TomlModel,
)
    requires
        !u.dom().contains(k),
    ensures
        merge_table_models(b, u.insert(k, v)) == merge_table_models(b, u).insert(
            k,
            if b.dom().contains(k) {
                deep_merge_model(b[k], v)
            } else {
                v
            },
        ),
        merge_table_models(b, u).dom().contains(k) == b.dom().contains(k),
        b.dom().contains(k) ==> merge_table_models(b, u)[k] == b[k],
{
    assert(merge_table_models(b, u.insert(k, v)) =~= merge_table_models(b, u).insert(
        k,
        if b.dom().contains(k) {
            deep_merge_model(b[k], v)
        } else {
            v
        },
    ));
}

/// Merging an empty user table changes nothing.
pub proof fn lemma_merge_table_empty(b: Map<Seq<char>, TomlModel>)
    ensures
        merge_table_models(b, Map::empty()) == b,
{
    assert(merge_table_models(b, Map::empty()) =~= b);
}

/// Deep-merges `user` into an owned base value.
fn deep_merge_value(base: TomlValue, user: &TomlValue) -> (r: TomlValue)
    ensures
        r.model() == deep_merge_model(base.model(), user.model()),
    decreases user, 1nat,
{
    match user {
        TomlValue::Table(ut) => match base {
            TomlValue::Table(bt) => TomlValue::Table(merge_into_table(bt, ut)),
            _ => user.deep_copy(),
        },
        _ => user.deep_copy(),
    }
}

/// Deep-merges the user table into an owned base table.
fn merge_into_table(base: TomlTable, user: &TomlTable) -> (r: TomlTable)
    ensures
        r.model() == merge_table_models(base.model(), user.model()),
    decreases user, 0nat,
{
    let ghost b = base.model();
    let mut merged = base;
    let es = user.entries();
    proof {
        lemma_merge_table_empty(b);
        assert(es@.take(0) =~= Seq::<(String, TomlValue)>::empty());
    }
    let mut i: usize = 0;
    while i < es.len()
        invariant
            i <= es@.len(),
            es@ == user.entries_view(),
            keys_distinct(es@),
            merged.model() == merge_table_models(b, entries_model(es@.take(i as int))),
        decreases es@.len() - i,
    {
        let ghost ui = entries_model(es@.take(i as int));
        proof {
            lemma_entries_model_prefix_step(es@, i as int);
            lemma_merge_table_step(b, ui, es@[i as int].0@, es@[i as int].1.model());
            lemma_entry_value_decreases(*user, i as int);
        }
        let key = &es[i].0;
        let uv = &es[i].1;
        match merged.remove(key.as_str()) {
            Some(bv) => {
                let nv = deep_merge_value(bv, uv);
                merged.insert(owned(key.as_str()), nv);
            },
            None => {
                merged.insert(owned(key.as_str()), uv.deep_copy());
            },
        }
        proof {
            let m = merge_table_models(b, ui);
            assert(merged.model() =~= m.insert(
                es@[i as int].0@,
                if b.dom().contains(es@[i as int].0@) {
                    deep_merge_model(b[es@[i as int].0@], es@[i as int].1.model())
                } else {
                    es@[i as int].1.model()
                },
            ));
        }
        i = i + 1;
    }
    assert(es@.take(es@.len() as int) =~= es@);
    merged
}

/// Deep-merges `user` into `base`.
pub fn deep_merge_toml(base: &mut TomlValue, user: &TomlValue)
    ensures
        final(base).model() == deep_merge_model(old(base).model(), user.model()),
{
    let mut b = TomlValue::Boolean(false);
    std::mem::swap(&mut b, base);
    *base = deep_merge_value(b, user);
}

/// The user's Yazi config deep-merged into the generated base config.
pub fn merge_yazi_toml_config(base_config: TomlTable, user_config: TomlTable) -> (r: TomlTable)
    ensures
        r.model() == merge_table_models(base_config.model(), user_config.model()),
{
    let mut merged = TomlValue::Table(base_config);
    deep_merge_toml(&mut merged, &TomlValue::Table(user_config));
    match merged {
        TomlValue::Table(t) => t,
        _ => TomlTable::new(),
    }
}

/// The views of the segments of a key path.
pub open spec fn path_views(path: Seq<&str>) -> Seq<Seq<char>> {
    path.map_values(|s: &str| s@)
}

/// The table held at `m[k]`, or the empty table where `m` has no table there.
pub open spec fn sub_table(m: Map<Seq<char>, TomlModel>, k: Seq<char>) -> Map<Seq<char>, TomlModel> {
    if m.dom().contains(k) {
        match m[k] {
            TomlModel::Table(t) => t,
            _ => Map::empty(),
        }
    } else {
        Map::empty()
    }
}

/// Whether every segment of `path` that `m` already holds is a table, so that the
/// nested upsert can walk the path.
pub open spec fn upsert_path_ok(m: Map<Seq<char>, TomlModel>, path: Seq<Seq<char>>) -> bool
    decreases path.len(),
{
    path.len() == 0 || ((m.dom().contains(path[0]) ==> m[path[0]] is Table) && upsert_path_ok(
        sub_table(m, path[0]),
        path.subrange(1, path.len() as int),
    ))
}

/// `m` with the string `value` set at `leaf` inside the nested tables named by
/// `path`, which are created where missing.
pub open spec fn upsert_model(
    m: Map<Seq<char>, TomlModel>,
    path: Seq<Seq<char>>,
    leaf: Seq<char>,
    value: Seq<char>,
) -> Map<Seq<char>, TomlModel>
    decreases path.len(),
{
    if path.len() == 0 {
        m.insert(leaf, TomlModel::Str(value))
    } else {
        m.insert(
            path[0],
            TomlModel::Table(
                upsert_model(
                    sub_table(m, path[0]),
                    path.subrange(1, path.len() as int),
                    leaf,
                    value,
                ),
            ),
        )
    }
}

/// Upserts from segment `start` of the path on.
fn upsert_from(root: &mut TomlTable, path: &[&str], start: usize, leaf: &str, value: &str)
    requires
        start <= path@.len(),
        upsert_path_ok(
            old(root).model(),
            path_views(path@).subrange(start as int, path@.len() as int),
        ),
    ensures
        final(root).model() == upsert_model(
            old(root).model(),
            path_views(path@).subrange(start as int, path@.len() as int),
            leaf@,
            value@,
        ),
    decreases path@.len() - start,
{
    let ghost rest = path_views(path@).subrange(start as int, path@.len() as int);
    if start == path.len() {
        root.insert(owned(leaf), TomlValue::String(owned(value)));
        return;
    }
    let seg: &str = path[start];
    let ghost m = root.model();
    assert(rest[0] == seg@);
    assert(rest.subrange(1, rest.len() as int) =~= path_views(path@).subrange(
        start + 1,
        path@.len() as int,
    ));
    let mut sub = match root.remove(seg) {
        Some(TomlValue::Table(t)) => t,
        Some(_) => TomlTable::new(),
        None => TomlTable::new(),
    };
    assert(sub.model() == sub_table(m, seg@));
    upsert_from(&mut sub, path, start + 1, leaf, value);
    root.insert(owned(seg), TomlValue::Table(sub));
    assert(root.model() =~= upsert_model(m, rest, leaf@, value@));
}

/// Sets the string `value` at `leaf` inside the nested tables named by `path`,
/// creating the tables that are missing.
pub fn upsert_nested_string(root: &mut TomlTable, path: &[&str], leaf: &str, value: &str)
    requires
        upsert_path_ok(old(root).model(), path_views(path@)),
    ensures
        final(root).model() == upsert_model(old(root).model(), path_views(path@), leaf@, value@),
{
    assert(path_views(path@).subrange(0, path@.len() as int) =~= path_views(path@));
    upsert_from(root, path, 0, leaf, value);
}

/// The Yazelix edit opener of a base config: `opener.edit`, when `opener` is a table
/// that has it.
pub open spec fn base_edit_opener(base: Map<Seq<char>, TomlModel>) -> Option<TomlModel> {
    if base.dom().contains("opener"@) {
        match base["opener"@] {
            TomlModel::Table(o) => if o.dom().contains("edit"@) {
                Some(o["edit"@])
            } else {
                None
            },
            _ => None,
        }
    } else {
        None
    }
}

/// Whether the edit opener can be put back into `merged`: it is not needed, or
/// `merged` has no `opener` or has it as a table.
pub open spec fn preserve_opener_ok(
    base: Map<Seq<char>, TomlModel>,
    merged: Map<Seq<char>, TomlModel>,
) -> bool {
    base_edit_opener(base) is Some && merged.dom().contains("opener"@) ==> merged["opener"@] is Table
}

/// `merged` with the base config's `opener.edit`, if it has one, put back in place.
pub open spec fn preserve_opener_model(
    base: Map<Seq<char>, TomlModel>,
    merged: Map<Seq<char>, TomlModel>,
) -> Map<Seq<char>, TomlModel> {
    match base_edit_opener(base) {
        None => merged,
        Some(e) => merged.insert(
            "opener"@,
            TomlModel::Table(sub_table(merged, "opener"@).insert("edit"@, e)),
        ),
    }
}

/// Puts the base config's `opener.edit` back into the merged config, so that user
/// settings cannot replace the Yazelix editor opener.
pub fn preserve_yazelix_edit_opener(base: &TomlTable, merged: &mut TomlTable)
    requires
        preserve_opener_ok(base.model(), old(merged).model()),
    ensures
        final(merged).model() == preserve_opener_model(base.model(), old(merged).model()),
{
    let base_opener = match base.get("opener") {
        Some(TomlValue::Table(t)) => t,
        _ => {
            return;
        },
    };
    let yazelix_edit = match base_opener.get("edit") {
        Some(v) => v.deep_copy(),
        None => {
            return;
        },
    };
    let ghost m = merged.model();
    let mut opener = match merged.remove("opener") {
        Some(TomlValue::Table(t)) => t,
        Some(_) => TomlTable::new(),
        None => TomlTable::new(),
    };
    assert(opener.model() == sub_table(m, "opener"@));
    opener.insert(owned("edit"), yazelix_edit);
    merged.insert(owned("opener"), TomlValue::Table(opener));
    assert(merged.model() =~= preserve_opener_model(base.model(), m));
}

/// An array with a user keymap value appended: the elements of a user array, or the
/// user value itself.
pub open spec fn append_model(a: Seq<TomlModel>, v: TomlModel) -> Seq<TomlModel> {
    match v {
        TomlModel::Array(ua) => a + ua,
        _ => a.push(v),
    }
}

/// The value of key `s` of a base keymap section after the user section is merged:
/// base arrays get the user value appended; other base values stay; user-only keys
/// are added.
pub open spec fn merged_section_value(
    bs: Map<Seq<char>, TomlModel>,
    us: Map<Seq<char>, TomlModel>,
    s: Seq<char>,
) -> TomlModel {
    if bs.dom().contains(s) {
        if us.dom().contains(s) {
            match bs[s] {
                TomlModel::Array(a) => TomlModel::Array(append_model(a, us[s])),
                other => other,
            }
        } else {
            bs[s]
        }
    } else {
        us[s]
    }
}

/// A base keymap section with a user section merged in.
pub open spec fn merge_section_model(
    bs: Map<Seq<char>, TomlModel>,
    us: Map<Seq<char>, TomlModel>,
) -> Map<Seq<char>, TomlModel> {
    Map::new(
        |s: Seq<char>| bs.dom().contains(s) || us.dom().contains(s),
        |s: Seq<char>| merged_section_value(bs, us, s),
    )
}

/// A base keymap with a user keymap merged in: user sections that are tables merge
/// into base sections that are tables; any other user section replaces the base one.
pub open spec fn merge_keymap_model(
    b: Map<Seq<char>, TomlModel>,
    u: Map<Seq<char>, TomlModel>,
) -> Map<Seq<char>, TomlModel> {
    Map::new(
        |k: Seq<char>| b.dom().contains(k) || u.dom().contains(k),
        |k: Seq<char>|
            if u.dom().contains(k) {
                match u[k] {
                    TomlModel::Table(us) => if b.dom().contains(k) && b[k] is Table {
                        TomlModel::Table(merge_section_model(sub_table(b, k), us))
                    } else {
                        TomlModel::Table(us)
                    },
                    other => other,
                }
            } else {
                b[k]
            },
    )
}

/// Appends a user keymap value to an array.
fn append_keymap_value(arr: &mut Vec<TomlValue>, v: &TomlValue)
    ensures
        values_model(final(arr)@) == append_model(values_model(old(arr)@), v.model()),
{
    match v {
        TomlValue::Array(ua) => {
            let ghost a0 = values_model(arr@);
            proof {
                lemma_values_model(ua@);
                assert(ua@.take(0) =~= Seq::<TomlValue>::empty());
                assert(a0 + values_model(ua@.take(0)) =~= a0);
            }
            let mut i: usize = 0;
            while i < ua.len()
                invariant
                    i <= ua@.len(),
                    values_model(arr@) == a0 + values_model(ua@.take(i as int)),
                decreases ua@.len() - i,
            {
                let c = ua[i].deep_copy();
                proof {
                    lemma_values_model_push(arr@, c);
                    assert(ua@.take(i + 1) =~= ua@.take(i as int).push(ua@[i as int]));
                    lemma_values_model_push(ua@.take(i as int), ua@[i as int]);
                }
                arr.push(c);
                i = i + 1;
            }
            assert(ua@.take(ua@.len() as int) =~= ua@);
        },
        _ => {
            let c = v.deep_copy();
            proof {
                lemma_values_model_push(arr@, c);
            }
            arr.push(c);
        },
    }
}

/// Merges a user keymap section into a base section.
fn merge_keymap_section(base_section: TomlTable, user_section: &TomlTable) -> (r: TomlTable)
    ensures
        r.model() == merge_section_model(base_section.model(), user_section.model()),
{
    let ghost bs = base_section.model();
    let ghost us = user_section.model();
    let base_subsections = base_section.keys();
    let ghost bkeys = views(base_subsections@);
    let mut section = base_section;
    let mut i: usize = 0;
    assert(section.model() =~= Map::new(
        |s: Seq<char>| bs.dom().contains(s),
        |s: Seq<char>|
            if bkeys.take(0).contains(s) {
                merged_section_value(bs, us, s)
            } else {
                bs[s]
            },
    ));
    while i < base_subsections.len()
        invariant
            i <= base_subsections@.len(),
            bkeys == views(base_subsections@),
            bs == base_section.model(),
            us == user_section.model(),
            forall|k: Seq<char>| #[trigger] bs.dom().contains(k) <==> bkeys.contains(k),
            bkeys == entry_keys(base_section.entries_view()),
            keys_distinct(base_section.entries_view()),
            section.model() == Map::new(
                |s: Seq<char>| bs.dom().contains(s),
                |s: Seq<char>|
                    if bkeys.take(i as int).contains(s) {
                        merged_section_value(bs, us, s)
                    } else {
                        bs[s]
                    },
            ),
        decreases base_subsections@.len() - i,
    {
        let sub = base_subsections[i].as_str();
        let ghost k = sub@;
        assert(bkeys[i as int] == k);
        assert(bs.dom().contains(k));
        assert(!bkeys.take(i as int).contains(k)) by {
            if bkeys.take(i as int).contains(k) {
                let j = choose|j: int| 0 <= j < i && bkeys.take(i as int)[j] == k;
                assert(base_section.entries_view()[j].0@ == base_section.entries_view()[i as int].0@);
            }
        }
        assert(bkeys.take(i + 1) =~= bkeys.take(i as int).push(k));
        let ghost before = section.model();
        assert(before.dom().contains(k) && before[k] == bs[k]);
        match user_section.get(sub) {
            Some(uv) => {
                match section.remove(sub) {
                    Some(TomlValue::Array(a)) => {
                        let mut arr = a;
                        append_keymap_value(&mut arr, uv);
                        section.insert(owned(sub), TomlValue::Array(arr));
                        assert(section.model() =~= before.insert(k, merged_section_value(bs, us, k)));
                    },
                    Some(other) => {
                        assert(!(other.model() is Array));
                        section.insert(owned(sub), other);
                        assert(section.model() =~= before.insert(k, merged_section_value(bs, us, k)));
                    },
                    None => {},
                }
            },
            None => {
                assert(before.insert(k, merged_section_value(bs, us, k)) =~= before);
            },
        }
        assert(section.model() == before.insert(k, merged_section_value(bs, us, k)));
        i = i + 1;
        assert(section.model() =~= Map::new(
            |s: Seq<char>| bs.dom().contains(s),
            |s: Seq<char>|
                if bkeys.take(i as int).contains(s) {
                    merged_section_value(bs, us, s)
                } else {
                    bs[s]
                },
        ));
    }
    assert(bkeys.take(i as int) =~= bkeys);
    let es = user_section.entries();
    let ghost ukeys = entry_keys(es@);
    proof {
        lemma_entries_model(es@);
    }
    let mut j: usize = 0;
    assert(section.model() =~= Map::new(
        |s: Seq<char>| bs.dom().contains(s) || (ukeys.take(0).contains(s)),
        |s: Seq<char>| merged_section_value(bs, us, s),
    ));
    while j < es.len()
        invariant
            j <= es@.len(),
            es@ == user_section.entries_view(),
            ukeys == entry_keys(es@),
            keys_distinct(es@),
            bkeys == views(base_subsections@),
            bs == base_section.model(),
            us == user_section.model(),
            us == entries_model(es@),
            forall|k: Seq<char>| #[trigger] bs.dom().contains(k) <==> bkeys.contains(k),
            forall|k: Seq<char>| #[trigger] us.dom().contains(k) <==> ukeys.contains(k),
            forall|q: int|
                0 <= q < es@.len() ==> #[trigger] us.dom().contains(es@[q].0@) && us[es@[q].0@]
                    == es@[q].1.model(),
            section.model() == Map::new(
                |s: Seq<char>| bs.dom().contains(s) || ukeys.take(j as int).contains(s),
                |s: Seq<char>| merged_section_value(bs, us, s),
            ),
        decreases es@.len() - j,
    {
        let sub = es[j].0.as_str();
        assert(ukeys[j as int] == sub@);
        assert(ukeys.take(j + 1) =~= ukeys.take(j as int).push(sub@));
        assert(us.dom().contains(es@[j as int].0@));
        assert(us[sub@] == es@[j as int].1.model());
        let ghost before = section.model();
        if !contains_string(base_subsections.as_slice(), sub) {
            assert(!bs.dom().contains(sub@));
            section.insert(owned(sub), es[j].1.deep_copy());
            assert(section.model() == before.insert(sub@, merged_section_value(bs, us, sub@)));
        } else {
            assert(bs.dom().contains(sub@));
        }
        j = j + 1;
        assert(section.model() =~= Map::new(
            |s: Seq<char>| bs.dom().contains(s) || ukeys.take(j as int).contains(s),
            |s: Seq<char>| merged_section_value(bs, us, s),
        ));
    }
    assert(ukeys.take(j as int) =~= ukeys);
    assert(section.model() =~= merge_section_model(bs, us));
    section
}

/// Merges a user keymap into a base keymap: within sections present in both as
/// tables, user bindings are appended to base binding arrays and user-only keys are
/// added; any other user section replaces the base one.
pub fn merge_yazi_keymap(base_keymap: TomlTable, user_keymap: TomlTable) -> (r: TomlTable)
    ensures
        r.model() == merge_keymap_model(base_keymap.model(), user_keymap.model()),
{
    let ghost b = base_keymap.model();
    let ghost u = user_keymap.model();
    let mut merged = base_keymap;
    let es = user_keymap.entries();
    let ghost ukeys = entry_keys(es@);
    proof {
        lemma_entries_model(es@);
    }
    assert(merged.model() =~= Map::new(
        |k: Seq<char>| b.dom().contains(k) || ukeys.take(0).contains(k),
        |k: Seq<char>|
            if ukeys.take(0).contains(k) {
                merge_keymap_model(b, u)[k]
            } else {
                b[k]
            },
    ));
    let mut i: usize = 0;
    while i < es.len()
        invariant
            i <= es@.len(),
            es@ == user_keymap.entries_view(),
            ukeys == entry_keys(es@),
            keys_distinct(es@),
            b == base_keymap.model(),
            u == user_keymap.model(),
            u == entries_model(es@),
            forall|k: Seq<char>| #[trigger] u.dom().contains(k) <==> ukeys.contains(k),
            forall|q: int|
                0 <= q < es@.len() ==> #[trigger] u.dom().contains(es@[q].0@) && u[es@[q].0@]
                    == es@[q].1.model(),
            merged.model() == Map::new(
                |k: Seq<char>| b.dom().contains(k) || ukeys.take(i as int).contains(k),
                |k: Seq<char>|
                    if ukeys.take(i as int).contains(k) {
                        merge_keymap_model(b, u)[k]
                    } else {
                        b[k]
                    },
            ),
        decreases es@.len() - i,
    {
        let section = es[i].0.as_str();
        let ghost k = section@;
        assert(ukeys[i as int] == k);
        assert(u.dom().contains(es@[i as int].0@));
        assert(!ukeys.take(i as int).contains(k)) by {
            if ukeys.take(i as int).contains(k) {
                let j = choose|j: int| 0 <= j < i && ukeys.take(i as int)[j] == k;
                assert(es@[j].0@ == es@[i as int].0@);
            }
        }
        assert(ukeys.take(i + 1) =~= ukeys.take(i as int).push(k));
        let ghost before = merged.model();
        assert(u[k] == es@[i as int].1.model());
        assert(before.dom().contains(k) == b.dom().contains(k));
        assert(b.dom().contains(k) ==> before[k] == b[k]);
        match &es[i].1 {
            TomlValue::Table(user_section) => {
                match merged.remove(section) {
                    Some(TomlValue::Table(base_section)) => {
                        assert(b.dom().contains(k) && b[k] is Table);
                        assert(sub_table(b, k) == base_section.model());
                        let ns = merge_keymap_section(base_section, user_section);
                        merged.insert(owned(section), TomlValue::Table(ns));
                    },
                    Some(other) => {
                        assert(!(b[k] is Table));
                        merged.insert(owned(section), TomlValue::Table(user_section.deep_copy()));
                    },
                    None => {
                        merged.insert(owned(section), TomlValue::Table(user_section.deep_copy()));
                    },
                }
            },
            other => {
                merged.insert(owned(section), other.deep_copy());
            },
        }
        assert(merged.model() == before.insert(k, merge_keymap_model(b, u)[k]));
        i = i + 1;
        assert(merged.model() =~= Map::new(
            |k: Seq<char>| b.dom().contains(k) || ukeys.take(i as int).contains(k),
            |k: Seq<char>|
                if ukeys.take(i as int).contains(k) {
                    merge_keymap_model(b, u)[k]
                } else {
                    b[k]
                },
        ));
    }
    assert(ukeys.take(i as int) =~= ukeys);
    assert(merged.model() =~= merge_keymap_model(b, u));
    merged
}

/// Deep-merging a value into itself gives the value back.
pub proof fn lemma_deep_merge_self(v: TomlModel)
    ensures
        deep_merge_model(v, v) == v,
    decreases v,
{
    match v {
        TomlModel::Table(b) => {
            assert forall|k: Seq<char>| b.dom().contains(k) implies deep_merge_model(b[k], b[k])
                == b[k] by {
                lemma_deep_merge_self(b[k]);
            }
            assert(merge_table_models(b, b) =~= b);
        },
        _ => {},
    }
}

/// In a deep merge of tables, every key of either table is kept, keys only the base
/// has keep its value, and a user value that is not a table replaces the base value.
pub proof fn lemma_merge_table_user_wins(b: Map<Seq<char>, TomlModel>, u: Map<Seq<char>, TomlModel>)
    ensures
        forall|k: Seq<char>| #[trigger] merge_table_models(b, u).dom().contains(k) <==> (b.dom().contains(
            k,
        ) || u.dom().contains(k)),
        forall|k: Seq<char>|
            b.dom().contains(k) && !u.dom().contains(k) ==> #[trigger] merge_table_models(b, u)[k]
                == b[k],
        forall|k: Seq<char>|
            u.dom().contains(k) && !(u[k] is Table) ==> #[trigger] merge_table_models(b, u)[k]
                == u[k],
{
    assert forall|k: Seq<char>|
        u.dom().contains(k) && !(u[k] is Table) implies #[trigger] merge_table_models(b, u)[k]
        == u[k] by {
        if b.dom().contains(k) {
            assert(deep_merge_model(b[k], u[k]) == u[k]);
        }
    }
}

/// Merging an empty user keymap changes nothing.
pub proof fn lemma_merge_keymap_empty(b: Map<Seq<char>, TomlModel>)
    ensures
        merge_keymap_model(b, Map::empty()) == b,
{
    assert(merge_keymap_model(b, Map::empty()) =~= b);
}

/// A user keymap never drops base bindings: where the base holds a table section and
/// the user, if it has that section, a table too, each base binding array stays the
/// prefix of the merged array.
pub proof fn lemma_merge_keymap_keeps_base_bindings(
    b: Map<Seq<char>, TomlModel>,
    u: Map<Seq<char>, TomlModel>,
    section: Seq<char>,
    sub: Seq<char>,
)
    requires
        b.dom().contains(section),
        b[section] is Table,
        sub_table(b, section).dom().contains(sub),
        sub_table(b, section)[sub] is Array,
        u.dom().contains(section) ==> u[section] is Table,
    ensures
        merge_keymap_model(b, u).dom().contains(section),
        merge_keymap_model(b, u)[section] is Table,
        sub_table(merge_keymap_model(b, u), section).dom().contains(sub),
        ({
            let merged = sub_table(merge_keymap_model(b, u), section)[sub];
            let base = sub_table(b, section)[sub];
            match (merged, base) {
                (TomlModel::Array(m), TomlModel::Array(a)) => m.len() >= a.len() && m.take(
                    a.len() as int,
                ) == a,
                _ => false,
            }
        }),
{
    let m = merge_keymap_model(b, u);
    if u.dom().contains(section) {
        match u[section] {
            TomlModel::Table(us) => {
                let bs = sub_table(b, section);
                match bs[sub] {
                    TomlModel::Array(a) => {
                        if us.dom().contains(sub) {
                            match us[sub] {
                                TomlModel::Array(ua) => {
                                    assert((a + ua).take(a.len() as int) =~= a);
                                },
                                other => {
                                    assert(a.push(other).take(a.len() as int) =~= a);
                                },
                            }
                        } else {
                            assert(a.take(a.len() as int) =~= a);
                        }
                    },
                    _ => {},
                }
            },
            _ => {},
        }
    } else {
        match sub_table(b, section)[sub] {
            TomlModel::Array(a) => {
                assert(a.take(a.len() as int) =~= a);
            },
            _ => {},
        }
    }
}

/// The nested upsert touches only its path: the result has every key of `m`, and
/// every key other than the first path segment (or the leaf, for an empty path)
/// keeps its value; the leaf, or the first segment's table, is set.
pub proof fn lemma_upsert_keeps_other_keys(
    m: Map<Seq<char>, TomlModel>,
    path: Seq<Seq<char>>,
    leaf: Seq<char>,
    value: Seq<char>,
)
    ensures
        forall|k: Seq<char>| #[trigger] m.dom().contains(k) ==> upsert_model(m, path, leaf, value).dom().contains(k),
        forall|k: Seq<char>|
            k != (if path.len() == 0 { leaf } else { path[0] }) && #[trigger] m.dom().contains(k)
                ==> upsert_model(m, path, leaf, value)[k] == m[k],
        path.len() == 0 ==> upsert_model(m, path, leaf, value).dom().contains(leaf)
            && upsert_model(m, path, leaf, value)[leaf] == TomlModel::Str(value),
        path.len() > 0 ==> upsert_model(m, path, leaf, value).dom().contains(path[0])
            && upsert_model(m, path, leaf, value)[path[0]] is Table,
{
}

/// Merging a keymap section by section: where the base and the user both hold a
/// table at `section`, a key only the user has is carried over as the user gave it,
/// a key only the base has stays, and a base array gets the user's bindings
/// appended after its own.
pub proof fn lemma_merge_keymap_section_keys(
    b: Map<Seq<char>, TomlModel>,
    u: Map<Seq<char>, TomlModel>,
    section: Seq<char>,
    s: Seq<char>,
)
    requires
        b.dom().contains(section),
        b[section] is Table,
        u.dom().contains(section),
        u[section] is Table,
    ensures
        merge_keymap_model(b, u).dom().contains(section),
        merge_keymap_model(b, u)[section] is Table,
        sub_table(u, section).dom().contains(s) && !sub_table(b, section).dom().contains(s) ==> {
            &&& sub_table(merge_keymap_model(b, u), section).dom().contains(s)
            &&& sub_table(merge_keymap_model(b, u), section)[s] == sub_table(u, section)[s]
        },
        sub_table(b, section).dom().contains(s) && !sub_table(u, section).dom().contains(s) ==> {
            &&& sub_table(merge_keymap_model(b, u), section).dom().contains(s)
            &&& sub_table(merge_keymap_model(b, u), section)[s] == sub_table(b, section)[s]
        },
        !sub_table(b, section).dom().contains(s) && !sub_table(u, section).dom().contains(s)
            ==> !sub_table(merge_keymap_model(b, u), section).dom().contains(s),
        forall|a: Seq<TomlModel>, c: Seq<TomlModel>|
            sub_table(b, section).dom().contains(s) && sub_table(u, section).dom().contains(s)
                && #[trigger] sub_table(b, section)[s] == TomlModel::Array(a) && #[trigger] sub_table(
                u,
                section,
            )[s] == TomlModel::Array(c) ==> sub_table(merge_keymap_model(b, u), section)[s]
                == TomlModel::Array(a + c),
{
}

} // verus!
