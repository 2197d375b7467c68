//! A TOML document model: tables are maps from keys to values, and each value is a
//! string, integer, boolean, array or table held as plain values, or a float or
//! datetime carried as the `toml` value it was read as.
//!
//! The merges walk documents to any depth and branch on the kind of each value, so
//! they work on these values rather than on opaque `toml::Value`s; and the methods of
//! `toml::map::Map` exist only for `toml::Value` entries, so a table here keeps its
//! entries in a `Vec` whose keys are distinct (the type's invariant). Documents are
//! read and written through the `toml` crate (`toml_text`).

use vstd::prelude::*;

use crate::text::{owned, views};
use crate::toml_text::TomlLeaf;

verus! {

/// The mathematical model of a TOML value.
pub enum TomlModel {
    Str(Seq<char>),
    Int(i64),
    Bool(bool),
    /// A float or datetime, as the `toml` value that holds it.
    Leaf(toml::Value),
    Array(Seq<TomlModel>),
    Table(Map<Seq<char>, TomlModel>),
}

/// A TOML value.
#[derive(Debug)]
pub enum TomlValue {
    String(String),
    Integer(i64),
    Boolean(bool),
    /// A float or an offset or local date, time or date-time.
    Other(TomlLeaf),
    Array(Vec<TomlValue>),
    Table(TomlTable),
}

/// A TOML table: distinct keys, each with a value.
#[derive(Debug)]
pub struct TomlTable {
    entries: Vec<(String, TomlValue)>,
}

/// Whether the keys of `es` are pairwise distinct.
pub open spec fn keys_distinct(es: Seq<(String, TomlValue)>) -> bool {
    forall|i: int, j: int| 0 <= i < j < es.len() ==> es[i].0@ != es[j].0@
}

impl TomlTable {
    #[verifier::type_invariant]
    spec fn keys_unique(self) -> bool {
        keys_distinct(self.entries@)
    }

    /// The entries of the table, in storage order.
    pub closed spec fn entries_view(self) -> Seq<(String, TomlValue)> {
        self.entries@
    }

    /// The table as a map from keys to value models.
    pub open spec fn model(self) -> Map<Seq<char>, TomlModel> {
        entries_model(self.entries_view())
    }
}

impl TomlValue {
    /// The model of this value.
    pub open spec fn model(self) -> TomlModel
        decreases self,
    {
        match self {
            TomlValue::String(s) => TomlModel::Str(s@),
            TomlValue::Integer(i) => TomlModel::Int(i),
            TomlValue::Boolean(b) => TomlModel::Bool(b),
            TomlValue::Other(v) => TomlModel::Leaf(v.leaf_value()),
            TomlValue::Array(v) => TomlModel::Array(values_model(v@)),
            TomlValue::Table(t) => TomlModel::Table(entries_model(t.entries_view())),
        }
    }
}

/// The models of a sequence of values.
pub open spec fn values_model(vs: Seq<TomlValue>) -> Seq<TomlModel>
    decreases vs,
{
    if vs.len() == 0 {
        Seq::empty()
    } else {
        values_model(vs.drop_last()).push(vs.last().model())
    }
}

/// The map that a sequence of entries stands for.
pub open spec fn entries_model(es: Seq<(String, TomlValue)>) -> Map<Seq<char>, TomlModel>
    decreases es,
{
    if es.len() == 0 {
        Map::empty()
    } else {
        entries_model(es.drop_last()).insert(es.last().0@, es.last().1.model())
    }
}

/// The key views of a sequence of entries.
pub open spec fn entry_keys(es: Seq<(String, TomlValue)>) -> Seq<Seq<char>> {
    es.map_values(|e: (String, TomlValue)| e.0@)
}

/// `values_model` has one model per value, in order.
pub proof fn lemma_values_model(vs: Seq<TomlValue>)
    ensures
        values_model(vs).len() == vs.len(),
        forall|i: int| 0 <= i < vs.len() ==> #[trigger] values_model(vs)[i] == vs[i].model(),
    decreases vs.len(),
{
    if vs.len() > 0 {
        lemma_values_model(vs.drop_last());
    }
}

/// `values_model` of a pushed sequence.
pub proof fn lemma_values_model_push(vs: Seq<TomlValue>, v: TomlValue)
    ensures
        values_model(vs.push(v)) == values_model(vs).push(v.model()),
{
    assert(vs.push(v).drop_last() =~= vs);
}

/// The map of entries with distinct keys: its keys are the entry keys, and each maps
/// to its entry's value.
pub proof fn lemma_entries_model(es: Seq<(String, TomlValue)>)
    requires
        keys_distinct(es),
    ensures
        forall|i: int|
            0 <= i < es.len() ==> #[trigger] entries_model(es).dom().contains(es[i].0@)
                && entries_model(es)[es[i].0@] == es[i].1.model(),
        forall|k: Seq<char>|
            #[trigger] entries_model(es).dom().contains(k) <==> entry_keys(es).contains(k),
        entries_model(es).dom().finite(),
        entries_model(es).dom().len() == es.len(),
    decreases es.len(),
{
    if es.len() > 0 {
        let p = es.drop_last();
        assert(keys_distinct(p));
        lemma_entries_model(p);
        assert forall|k: Seq<char>|
            #[trigger] entries_model(es).dom().contains(k) <==> entry_keys(es).contains(k) by {
            if entry_keys(es).contains(k) {
                let i = choose|i: int| 0 <= i < entry_keys(es).len() && entry_keys(es)[i] == k;
                if i < p.len() {
                    assert(entry_keys(p)[i] == k);
                }
            }
            if entry_keys(p).contains(k) {
                let i = choose|i: int| 0 <= i < entry_keys(p).len() && entry_keys(p)[i] == k;
                assert(entry_keys(es)[i] == k);
            }
            if k == es.last().0@ {
                assert(entry_keys(es)[es.len() - 1] == k);
            }
        }
        assert(!entry_keys(p).contains(es.last().0@)) by {
            if entry_keys(p).contains(es.last().0@) {
                let i = choose|i: int| 0 <= i < entry_keys(p).len() && entry_keys(p)[i] == es.last().0@;
                assert(es[i].0@ == es[es.len() - 1].0@);
            }
        }
        assert(!entries_model(p).dom().contains(es.last().0@));
        assert forall|i: int| 0 <= i < es.len() implies #[trigger] entries_model(es).dom().contains(
            es[i].0@,
        ) && entries_model(es)[es[i].0@] == es[i].1.model() by {
            if i < p.len() {
                assert(p[i] == es[i]);
                assert(entries_model(p).dom().contains(p[i].0@));
                assert(es[i].0@ != es[es.len() - 1].0@);
            }
        }
    } else {
        assert(entries_model(es).dom() =~= Set::empty());
    }
}

/// Entries with distinct keys whose first `n` entries are kept: the map of the prefix.
pub proof fn lemma_entries_model_prefix_step(es: Seq<(String, TomlValue)>, n: int)
    requires
        keys_distinct(es),
        0 <= n < es.len(),
    ensures
        entries_model(es.take(n + 1)) == entries_model(es.take(n)).insert(es[n].0@, es[n].1.model()),
        !entries_model(es.take(n)).dom().contains(es[n].0@),
        keys_distinct(es.take(n)),
{
    assert(es.take(n + 1).drop_last() =~= es.take(n));
    assert(keys_distinct(es.take(n)));
    lemma_entries_model(es.take(n));
    if entries_model(es.take(n)).dom().contains(es[n].0@) {
        assert(entry_keys(es.take(n)).contains(es[n].0@));
        let i = choose|i: int|
            0 <= i < entry_keys(es.take(n)).len() && entry_keys(es.take(n))[i] == es[n].0@;
        assert(es[i].0@ == es[n].0@);
    }
}

/// Replacing the entry at `i` of distinct-keyed entries by one with the same key.
proof fn lemma_entries_model_set(es: Seq<(String, TomlValue)>, i: int, e: (String, TomlValue))
    requires
        keys_distinct(es),
        0 <= i < es.len(),
        e.0@ == es[i].0@,
    ensures
        keys_distinct(es.update(i, e)),
        entries_model(es.update(i, e)) == entries_model(es).insert(e.0@, e.1.model()),
{
    let u = es.update(i, e);
    assert(keys_distinct(u));
    lemma_entries_model(es);
    lemma_entries_model(u);
    assert(entry_keys(u) =~= entry_keys(es));
    assert(entries_model(es).dom().contains(es[i].0@));
    assert(entries_model(u).dom() =~= entries_model(es).insert(e.0@, e.1.model()).dom());
    assert forall|k: Seq<char>| #[trigger] entries_model(u).dom().contains(k) implies entries_model(
        u,
    )[k] == entries_model(es).insert(e.0@, e.1.model())[k] by {
        let j = choose|j: int| 0 <= j < entry_keys(u).len() && entry_keys(u)[j] == k;
        assert(entries_model(u)[u[j].0@] == u[j].1.model());
        if j != i {
            assert(entries_model(es)[es[j].0@] == es[j].1.model());
        }
    }
    assert(entries_model(u) =~= entries_model(es).insert(e.0@, e.1.model()));
}

/// Removing the entry at `i` of distinct-keyed entries.
proof fn lemma_entries_model_remove(es: Seq<(String, TomlValue)>, i: int)
    requires
        keys_distinct(es),
        0 <= i < es.len(),
    ensures
        keys_distinct(es.remove(i)),
        entries_model(es.remove(i)) == entries_model(es).remove(es[i].0@),
{
    let u = es.remove(i);
    assert(keys_distinct(u)) by {
        assert forall|a: int, b: int| 0 <= a < b < u.len() implies u[a].0@ != u[b].0@ by {
            let a2 = if a < i { a } else { a + 1 };
            let b2 = if b < i { b } else { b + 1 };
            assert(u[a] == es[a2]);
            assert(u[b] == es[b2]);
        }
    }
    lemma_entries_model(es);
    lemma_entries_model(u);
    assert forall|k: Seq<char>| #[trigger] entries_model(u).dom().contains(k)
        == entries_model(es).remove(es[i].0@).dom().contains(k) by {
        if entry_keys(u).contains(k) {
            let j = choose|j: int| 0 <= j < entry_keys(u).len() && entry_keys(u)[j] == k;
            let j2 = if j < i { j } else { j + 1 };
            assert(u[j] == es[j2]);
            assert(entries_model(es).dom().contains(es[j2].0@));
        }
        if entry_keys(es).contains(k) && k != es[i].0@ {
            let j = choose|j: int| 0 <= j < entry_keys(es).len() && entry_keys(es)[j] == k;
            let j2 = if j < i { j } else { j - 1 };
            assert(u[j2] == es[j]);
            assert(entries_model(u).dom().contains(u[j2].0@));
        }
    }
    assert forall|k: Seq<char>| #[trigger] entries_model(u).dom().contains(k) implies entries_model(
        u,
    )[k] == entries_model(es).remove(es[i].0@)[k] by {
        let j = choose|j: int| 0 <= j < entry_keys(u).len() && entry_keys(u)[j] == k;
        let j2 = if j < i { j } else { j + 1 };
        assert(u[j] == es[j2]);
        assert(entries_model(u)[u[j].0@] == u[j].1.model());
        assert(entries_model(es)[es[j2].0@] == es[j2].1.model());
    }
    assert(entries_model(u) =~= entries_model(es).remove(es[i].0@));
}

/// Each entry value of a table is structurally smaller than the table.
pub proof fn lemma_entry_value_decreases(t: TomlTable, i: int)
    requires
        0 <= i < t.entries_view().len(),
    ensures
        decreases_to!(t => t.entries_view()[i].1),
{
    assert(decreases_to!(t => t.entries));
    assert(decreases_to!(t.entries => t.entries@));
    assert(decreases_to!(t.entries@ => t.entries@[i]));
    assert(decreases_to!(t.entries@[i] => t.entries@[i].1));
}

/// The position of `key` among the entries, if present.
fn find_key(es: &Vec<(String, TomlValue)>, key: &str) -> (r: Option<usize>)
    ensures
        match r {
            Some(i) => i < es.len() && es@[i as int].0@ == key@,
            None => forall|i: int| 0 <= i < es.len() ==> es@[i].0@ != key@,
        },
{
    let mut i: usize = 0;
    while i < es.len()
        invariant
            i <= es.len(),
            forall|k: int| 0 <= k < i ==> es@[k].0@ != key@,
        decreases es.len() - i,
    {
        if crate::text::str_eq(es[i].0.as_str(), key) {
            return Some(i);
        }
        i = i + 1;
    }
    None
}

impl TomlTable {
    /// An empty table.
    pub fn new() -> (r: Self)
        ensures
            r.model() == Map::<Seq<char>, TomlModel>::empty(),
    {
        let r = TomlTable { entries: Vec::new() };
        assert(r.entries_view() =~= Seq::empty());
        r
    }

    /// The entries of the table, in storage order; their keys are distinct.
    pub fn entries(&self) -> (r: &Vec<(String, TomlValue)>)
        ensures
            r@ == self.entries_view(),
            keys_distinct(r@),
    {
        proof {
            use_type_invariant(self);
        }
        &self.entries
    }

    /// The number of keys.
    pub fn len(&self) -> (r: usize)
        ensures
            r == self.model().dom().len(),
    {
        proof {
            use_type_invariant(self);
            lemma_entries_model(self.entries@);
        }
        self.entries.len()
    }

    /// Whether the table has no key.
    pub fn is_empty(&self) -> (r: bool)
        ensures
            r <==> self.model() == Map::<Seq<char>, TomlModel>::empty(),
    {
        proof {
            use_type_invariant(self);
            lemma_entries_model(self.entries@);
            if self.entries@.len() > 0 {
                assert(self.model().dom().contains(self.entries@[0].0@));
            } else {
                assert(self.model() =~= Map::<Seq<char>, TomlModel>::empty());
            }
        }
        self.entries.len() == 0
    }

    /// Whether `key` is present.
    pub fn contains_key(&self, key: &str) -> (r: bool)
        ensures
            r == self.model().dom().contains(key@),
    {
        proof {
            use_type_invariant(self);
            lemma_entries_model(self.entries@);
        }
        match find_key(&self.entries, key) {
            Some(i) => true,
            None => {
                proof {
                    if self.model().dom().contains(key@) {
                        let j = choose|j: int|
                            0 <= j < entry_keys(self.entries@).len() && entry_keys(self.entries@)[j]
                                == key@;
                        assert(self.entries@[j].0@ == key@);
                    }
                }
                false
            },
        }
    }

    /// The value at `key`, if present.
    pub fn get(&self, key: &str) -> (r: Option<&TomlValue>)
        ensures
            match r {
                Some(v) => self.model().dom().contains(key@) && v.model() == self.model()[key@],
                None => !self.model().dom().contains(key@),
            },
    {
        proof {
            use_type_invariant(self);
            lemma_entries_model(self.entries@);
        }
        match find_key(&self.entries, key) {
            Some(i) => {
                proof {
                    assert(self.model().dom().contains(self.entries@[i as int].0@));
                }
                Some(&self.entries[i].1)
            },
            None => {
                proof {
                    if self.model().dom().contains(key@) {
                        let j = choose|j: int|
                            0 <= j < entry_keys(self.entries@).len() && entry_keys(self.entries@)[j]
                                == key@;
                        assert(self.entries@[j].0@ == key@);
                    }
                }
                None
            },
        }
    }

    /// Sets `key` to `value`, replacing any earlier value.
    pub fn insert(&mut self, key: String, value: TomlValue)
        ensures
            final(self).model() == old(self).model().insert(key@, value.model()),
    {
        proof {
            use_type_invariant(&*self);
        }
        let ghost old_es = self.entries@;
        let mut entries: Vec<(String, TomlValue)> = Vec::new();
        std::mem::swap(&mut entries, &mut self.entries);
        assert(entries@ == old_es);
        match find_key(&entries, key.as_str()) {
            Some(i) => {
                proof {
                    lemma_entries_model_set(old_es, i as int, (key, value));
                }
                entries.set(i, (key, value));
            },
            None => {
                proof {
                    assert(entries@.push((key, value)).drop_last() =~= old_es);
                }
                entries.push((key, value));
            },
        }
        self.entries = entries;
    }

    /// Removes `key`, giving back its value if it was present.
    pub fn remove(&mut self, key: &str) -> (r: Option<TomlValue>)
        ensures
            final(self).model() == old(self).model().remove(key@),
            match r {
                Some(v) => old(self).model().dom().contains(key@) && v.model() == old(
                    self,
                ).model()[key@],
                None => !old(self).model().dom().contains(key@),
            },
    {
        proof {
            use_type_invariant(&*self);
            lemma_entries_model(self.entries@);
        }
        let ghost old_es = self.entries@;
        let mut entries: Vec<(String, TomlValue)> = Vec::new();
        std::mem::swap(&mut entries, &mut self.entries);
        match find_key(&entries, key) {
            Some(i) => {
                proof {
                    lemma_entries_model_remove(old_es, i as int);
                }
                let (_, v) = entries.remove(i);
                self.entries = entries;
                Some(v)
            },
            None => {
                proof {
                    if entries_model(old_es).dom().contains(key@) {
                        let j = choose|j: int|
                            0 <= j < entry_keys(old_es).len() && entry_keys(old_es)[j] == key@;
                        assert(old_es[j].0@ == key@);
                    }
                    assert(entries_model(old_es).remove(key@) =~= entries_model(old_es));
                }
                self.entries = entries;
                None
            },
        }
    }

    /// The keys, in storage order.
    pub fn keys(&self) -> (r: Vec<String>)
        ensures
            views(r@) == entry_keys(self.entries_view()),
            keys_distinct(self.entries_view()),
            forall|k: Seq<char>| #[trigger] self.model().dom().contains(k) <==> views(r@).contains(k),
    {
        proof {
            use_type_invariant(self);
            lemma_entries_model(self.entries@);
        }
        let mut r: Vec<String> = Vec::new();
        let mut i: usize = 0;
        while i < self.entries.len()
            invariant
                i <= self.entries@.len(),
                r@.len() == i,
                views(r@) == entry_keys(self.entries@).take(i as int),
            decreases self.entries@.len() - i,
        {
            let ghost before = r@;
            r.push(owned(self.entries[i].0.as_str()));
            assert(views(r@) =~= views(before).push(self.entries@[i as int].0@));
            assert(entry_keys(self.entries@).take(i + 1) =~= entry_keys(self.entries@).take(
                i as int,
            ).push(self.entries@[i as int].0@));
            i = i + 1;
        }
        assert(entry_keys(self.entries@).take(i as int) =~= entry_keys(self.entries@));
        r
    }

    /// A copy of the table with the same model.
    pub fn deep_copy(&self) -> (r: TomlTable)
        ensures
            r.model() == self.model(),
        decreases self, 1nat,
    {
        proof {
            use_type_invariant(self);
        }
        let entries = copy_entries(&self.entries);
        TomlTable { entries }
    }
}

/// A copy of each entry, with the same keys and value models.
fn copy_entries(es: &Vec<(String, TomlValue)>) -> (r: Vec<(String, TomlValue)>)
    ensures
        entry_keys(r@) == entry_keys(es@),
        keys_distinct(es@) ==> keys_distinct(r@),
        entries_model(r@) == entries_model(es@),
        r@.len() == es@.len(),
    decreases es@, 0nat,
{
    let mut r: Vec<(String, TomlValue)> = Vec::new();
    let mut i: usize = 0;
    while i < es.len()
        invariant
            i <= es@.len(),
            r@.len() == i,
            forall|k: int| 0 <= k < i ==> #[trigger] r@[k].0@ == es@[k].0@,
            entries_model(r@) == entries_model(es@.take(i as int)),
        decreases es@.len() - i,
    {
        let ghost before = r@;
        let k = owned(es[i].0.as_str());
        let v = es[i].1.deep_copy();
        r.push((k, v));
        assert(r@.drop_last() =~= before);
        assert(r@[i as int].0@ == es@[i as int].0@);
        assert forall|q: int| 0 <= q < i + 1 implies #[trigger] r@[q].0@ == es@[q].0@ by {
            if q < i {
                assert(r@[q] == before[q]);
            }
        }
        assert(es@.take(i + 1).drop_last() =~= es@.take(i as int));
        i = i + 1;
    }
    assert(es@.take(i as int) =~= es@);
    assert(entry_keys(r@) =~= entry_keys(es@));
    r
}

/// A copy of each value, with the same models.
fn copy_values(vs: &Vec<TomlValue>) -> (r: Vec<TomlValue>)
    ensures
        values_model(r@) == values_model(vs@),
    decreases vs@, 0nat,
{
    let mut r: Vec<TomlValue> = Vec::new();
    let mut i: usize = 0;
    while i < vs.len()
        invariant
            i <= vs@.len(),
            r@.len() == i,
            values_model(r@) == values_model(vs@.take(i as int)),
        decreases vs@.len() - i,
    {
        let ghost before = r@;
        let v = vs[i].deep_copy();
        r.push(v);
        assert(r@.drop_last() =~= before);
        assert(vs@.take(i + 1).drop_last() =~= vs@.take(i as int));
        i = i + 1;
    }
    assert(vs@.take(i as int) =~= vs@);
    r
}

impl TomlValue {
    /// A copy of the value with the same model.
    pub fn deep_copy(&self) -> (r: TomlValue)
        ensures
            r.model() == self.model(),
        decreases self, 2nat,
    {
        match self {
            TomlValue::String(s) => TomlValue::String(owned(s.as_str())),
            TomlValue::Integer(i) => TomlValue::Integer(*i),
            TomlValue::Boolean(b) => TomlValue::Boolean(*b),
            TomlValue::Other(v) => TomlValue::Other(v.copy()),
            TomlValue::Array(v) => TomlValue::Array(copy_values(v)),
            TomlValue::Table(t) => TomlValue::Table(t.deep_copy()),
        }
    }
}

} // verus!
