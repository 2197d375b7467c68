//! TOML text and the library's TOML model, through the `toml` crate: the crate
//! parses text, and the values it gives back are taken apart one level at a time
//! and rebuilt as library values; library tables are rebuilt as `toml` values, which
//! the crate serializes.

use vstd::prelude::*;

use crate::toml_model::{TomlModel, TomlTable, TomlValue, lemma_values_model, values_model};

verus! {

#[verifier::external_type_specification]
#[verifier::external_body]
pub struct ExTomlValue(toml::Value);

#[verifier::external_type_specification]
#[verifier::external_body]
#[verifier::reject_recursive_types(K)]
#[verifier::reject_recursive_types(V)]
pub struct ExTomlMap<K, V>(toml::map::Map<K, V>);

/// What a `toml` value holds, as a model.
pub uninterp spec fn toml_value_model(v: toml::Value) -> TomlModel;

/// What a `toml` table holds: its keys and the models of their values.
pub uninterp spec fn toml_table_model(t: toml::Table) -> Map<Seq<char>, TomlModel>;

/// The table that `toml::from_str::<toml::Table>` reads from a text, or `None` where
/// it rejects the text.
pub uninterp spec fn parsed_toml_table(raw: Seq<char>) -> Option<Map<Seq<char>, TomlModel>>;

/// The text that `toml::to_string_pretty` writes for a table with this model, or
/// `None` where it fails.
pub uninterp spec fn toml_pretty_text(m: Map<Seq<char>, TomlModel>) -> Option<Seq<char>>;

/// A float or an offset or local date, time or date-time, held as the `toml` value it
/// was read as; its model is that value itself.
#[derive(Debug)]
pub struct TomlLeaf {
    value: toml::Value,
}

impl TomlLeaf {
    #[verifier::type_invariant]
    spec fn models_itself(self) -> bool {
        toml_value_model(self.value) == TomlModel::Leaf(self.value)
    }

    /// The `toml` value held.
    pub closed spec fn leaf_value(self) -> toml::Value {
        self.value
    }

    /// The `toml` value held.
    pub fn value(&self) -> (r: &toml::Value)
        ensures
            *r == self.leaf_value(),
    {
        &self.value
    }

    /// A `toml` value equal to the one held, whose model is that value.
    pub fn to_toml(&self) -> (r: toml::Value)
        ensures
            r == self.leaf_value(),
            toml_value_model(r) == TomlModel::Leaf(self.leaf_value()),
    {
        proof {
            use_type_invariant(self);
        }
        toml_value_clone(&self.value)
    }

    /// A copy holding an equal value.
    pub fn copy(&self) -> (r: TomlLeaf)
        ensures
            r.leaf_value() == self.leaf_value(),
    {
        TomlLeaf { value: self.to_toml() }
    }
}

/// One level of a `toml` value: strings, integers and booleans as plain values, a
/// float or datetime as the value itself, arrays and tables still as `toml` values.
pub enum TomlParts {
    String(String),
    Integer(i64),
    Boolean(bool),
    Other(toml::Value),
    Array(Vec<toml::Value>),
    Table(toml::Table),
}

/// Whether the parts of a value agree with its model.
pub open spec fn parts_match(p: TomlParts, m: TomlModel) -> bool {
    match p {
        TomlParts::String(s) => m == TomlModel::Str(s@),
        TomlParts::Integer(i) => m == TomlModel::Int(i),
        TomlParts::Boolean(b) => m == TomlModel::Bool(b),
        TomlParts::Other(x) => m == TomlModel::Leaf(x),
        TomlParts::Array(vs) => m == TomlModel::Array(
            vs@.map_values(|x: toml::Value| toml_value_model(x)),
        ),
        TomlParts::Table(t) => m == TomlModel::Table(toml_table_model(t)),
    }
}

/// The map that a sequence of `toml` entries stands for.
pub open spec fn toml_entries_model(es: Seq<(String, toml::Value)>) -> Map<Seq<char>, TomlModel>
    decreases es.len(),
{
    if es.len() == 0 {
        Map::empty()
    } else {
        toml_entries_model(es.drop_last()).insert(es.last().0@, toml_value_model(es.last().1))
    }
}

/// Whether the keys of `toml` entries are pairwise distinct.
pub open spec fn toml_keys_distinct(es: Seq<(String, toml::Value)>) -> bool {
    forall|i: int, j: int| 0 <= i < j < es.len() ==> es[i].0@ != es[j].0@
}

/// `toml::from_str::<toml::Table>`: the parsed table, or the parser's message.
#[verifier::external_body]
fn toml_from_str_table(raw: &str) -> (r: Result<toml::Table, String>)
    ensures
        match r {
            Ok(t) => parsed_toml_table(raw@) == Some(toml_table_model(t)),
            Err(_) => parsed_toml_table(raw@) is None,
        },
{
    match toml::from_str::<toml::Table>(raw) {
        Ok(t) => Ok(t),
        Err(e) => Err(e.to_string()),
    }
}

/// Takes a `toml` value apart one level, by its variant; a float or datetime comes
/// back as the same value.
#[verifier::external_body]
fn toml_value_parts(v: toml::Value) -> (r: TomlParts)
    ensures
        parts_match(r, toml_value_model(v)),
        r matches TomlParts::Other(x) ==> x == v,
{
    match v {
        toml::Value::String(s) => TomlParts::String(s),
        toml::Value::Integer(i) => TomlParts::Integer(i),
        toml::Value::Float(f) => TomlParts::Other(toml::Value::Float(f)),
        toml::Value::Boolean(b) => TomlParts::Boolean(b),
        toml::Value::Datetime(d) => TomlParts::Other(toml::Value::Datetime(d)),
        toml::Value::Array(a) => TomlParts::Array(a),
        toml::Value::Table(t) => TomlParts::Table(t),
    }
}

/// The entries of a `toml` table (`IntoIterator` of `toml::map::Map`); its keys are
/// distinct.
#[verifier::external_body]
fn toml_table_entries(t: toml::Table) -> (r: Vec<(String, toml::Value)>)
    ensures
        toml_keys_distinct(r@),
        toml_entries_model(r@) == toml_table_model(t),
{
    t.into_iter().collect()
}

/// Entries with distinct keys: each key maps to its entry's value model, and the
/// map is finite.
proof fn lemma_toml_entries_model(es: Seq<(String, toml::Value)>)
    requires
        toml_keys_distinct(es),
    ensures
        forall|i: int|
            0 <= i < es.len() ==> #[trigger] toml_entries_model(es).dom().contains(es[i].0@)
                && toml_entries_model(es)[es[i].0@] == toml_value_model(es[i].1),
        toml_entries_model(es).dom().finite(),
    decreases es.len(),
{
    if es.len() > 0 {
        let p = es.drop_last();
        assert(toml_keys_distinct(p));
        lemma_toml_entries_model(p);
        assert forall|i: int| 0 <= i < es.len() implies #[trigger] toml_entries_model(
            es,
        ).dom().contains(es[i].0@) && toml_entries_model(es)[es[i].0@] == toml_value_model(
            es[i].1,
        ) by {
            if i < p.len() {
                assert(p[i] == es[i]);
                assert(toml_entries_model(p).dom().contains(p[i].0@));
                assert(es[i].0@ != es[es.len() - 1].0@);
            }
        }
    } else {
        assert(toml_entries_model(es).dom() =~= Set::empty());
    }
}

/// A `toml` value rebuilt as a library value with the same model.
pub fn value_from_toml(v: toml::Value) -> (r: TomlValue)
    ensures
        r.model() == toml_value_model(v),
    decreases toml_value_model(v), 1nat,
{
    let ghost m = toml_value_model(v);
    match toml_value_parts(v) {
        TomlParts::String(s) => TomlValue::String(s),
        TomlParts::Integer(i) => TomlValue::Integer(i),
        TomlParts::Boolean(b) => TomlValue::Boolean(b),
        TomlParts::Other(x) => TomlValue::Other(TomlLeaf { value: x }),
        TomlParts::Array(vs) => {
            let ghost orig = vs@;
            let ghost models = orig.map_values(|x: toml::Value| toml_value_model(x));
            let mut rest = vs;
            let mut out: Vec<TomlValue> = Vec::new();
            let mut i: usize = 0;
            let n = rest.len();
            assert(orig.len() == n);
            assert(orig.skip(0) =~= orig);
            while rest.len() > 0
                invariant
                    m == toml_value_model(v),
                    orig.len() <= usize::MAX,
                    m == TomlModel::Array(models),
                    models == orig.map_values(|x: toml::Value| toml_value_model(x)),
                    i + rest@.len() == orig.len(),
                    rest@ == orig.skip(i as int),
                    out@.len() == i,
                    values_model(out@) == models.take(i as int),
                decreases rest@.len(),
            {
                let x = rest.remove(0);
                assert(x == orig[i as int]);
                assert(models[i as int] == toml_value_model(x));
                proof {
                    match m {
                        TomlModel::Array(ms) => {
                            assert(ms == models);
                            assert(decreases_to!(m => ms));
                            assert(decreases_to!(ms => ms[i as int]));
                            assert(decreases_to!(m => ms[i as int]));
                        },
                        _ => {},
                    }
                }
                let c = value_from_toml(x);
                proof {
                    crate::toml_model::lemma_values_model_push(out@, c);
                }
                out.push(c);
                assert(models.take(i + 1) =~= models.take(i as int).push(models[i as int]));
                assert(rest@ =~= orig.skip(i + 1));
                i = i + 1;
            }
            proof {
                lemma_values_model(out@);
            }
            assert(models.take(i as int) =~= models);
            TomlValue::Array(out)
        },
        TomlParts::Table(t) => TomlValue::Table(table_from_toml(t)),
    }
}

/// A `toml` table rebuilt as a library table with the same model.
pub fn table_from_toml(t: toml::Table) -> (r: TomlTable)
    ensures
        r.model() == toml_table_model(t),
    decreases TomlModel::Table(toml_table_model(t)), 0nat,
{
    let ghost m = toml_table_model(t);
    let entries = toml_table_entries(t);
    let ghost es = entries@;
    proof {
        lemma_toml_entries_model(es);
    }
    let mut rest = entries;
    let mut out = TomlTable::new();
    let mut i: usize = 0;
    let n = rest.len();
    assert(es.len() == n);
    assert(es.skip(0) =~= es);
    assert(es.take(0) =~= Seq::<(String, toml::Value)>::empty());
    while rest.len() > 0
        invariant
            m == toml_table_model(t),
            es.len() <= usize::MAX,
            m == toml_entries_model(es),
            toml_keys_distinct(es),
            m.dom().finite(),
            forall|q: int|
                0 <= q < es.len() ==> #[trigger] m.dom().contains(es[q].0@) && m[es[q].0@]
                    == toml_value_model(es[q].1),
            i + rest@.len() == es.len(),
            rest@ == es.skip(i as int),
            out.model() == toml_entries_model(es.take(i as int)),
        decreases rest@.len(),
    {
        let (k, v) = rest.remove(0);
        assert(es[i as int] == (k, v));
        assert(m.dom().contains(es[i as int].0@));
        assert(m[k@] == toml_value_model(v));
        proof {
            let tm = TomlModel::Table(m);
            match tm {
                TomlModel::Table(mm) => {
                    assert(decreases_to!(tm => mm));
                    assert(decreases_to!(mm => mm[k@]));
                    assert(decreases_to!(tm => mm[k@]));
                },
                _ => {},
            }
        }
        let c = value_from_toml(v);
        out.insert(k, c);
        assert(es.take(i + 1).drop_last() =~= es.take(i as int));
        assert(rest@ =~= es.skip(i + 1));
        i = i + 1;
    }
    assert(es.take(i as int) =~= es);
    out
}

/// The table read from a TOML text, or the parser's message where the text is not a
/// TOML document.
pub fn toml_table_from_str(raw: &str) -> (r: Result<TomlTable, String>)
    ensures
        match r {
            Ok(t) => parsed_toml_table(raw@) == Some(t.model()),
            Err(_) => parsed_toml_table(raw@) is None,
        },
{
    match toml_from_str_table(raw) {
        Ok(t) => Ok(table_from_toml(t)),
        Err(message) => Err(message),
    }
}

/// `<toml::Value as Clone>::clone`: the same value.
#[verifier::external_body]
pub(crate) fn toml_value_clone(v: &toml::Value) -> (r: toml::Value)
    ensures
        r == *v,
{
    v.clone()
}

/// The model of a table with no keys.
pub open spec fn empty_table_model() -> Map<Seq<char>, TomlModel> {
    Map::empty()
}

/// `toml::Table::new`: an empty table.
#[verifier::external_body]
fn toml_table_new() -> (r: toml::Table)
    ensures
        toml_table_model(r) == empty_table_model(),
{
    toml::Table::new()
}

/// `toml::Table::insert`: sets `key` to `value`, replacing any earlier value.
#[verifier::external_body]
fn toml_table_insert(t: &mut toml::Table, key: String, value: toml::Value)
    ensures
        toml_table_model(*final(t)) == toml_table_model(*old(t)).insert(key@, toml_value_model(value)),
{
    t.insert(key, value);
}

/// `toml::Value::String`.
#[verifier::external_body]
fn toml_string_value(s: String) -> (r: toml::Value)
    ensures
        toml_value_model(r) == TomlModel::Str(s@),
{
    toml::Value::String(s)
}

/// `toml::Value::Integer`.
#[verifier::external_body]
fn toml_integer_value(i: i64) -> (r: toml::Value)
    ensures
        toml_value_model(r) == TomlModel::Int(i),
{
    toml::Value::Integer(i)
}

/// `toml::Value::Boolean`.
#[verifier::external_body]
fn toml_boolean_value(b: bool) -> (r: toml::Value)
    ensures
        toml_value_model(r) == TomlModel::Bool(b),
{
    toml::Value::Boolean(b)
}

/// `toml::Value::Array`.
#[verifier::external_body]
fn toml_array_value(vs: Vec<toml::Value>) -> (r: toml::Value)
    ensures
        toml_value_model(r) == TomlModel::Array(vs@.map_values(|x: toml::Value| toml_value_model(x))),
{
    toml::Value::Array(vs)
}

/// `toml::Value::Table`.
#[verifier::external_body]
fn toml_table_value(t: toml::Table) -> (r: toml::Value)
    ensures
        toml_value_model(r) == TomlModel::Table(toml_table_model(t)),
{
    toml::Value::Table(t)
}

/// `toml::to_string_pretty` of a table (as a `toml::Value::Table`): its text, or the
/// serializer's message.
#[verifier::external_body]
fn toml_table_to_string_pretty(t: toml::Table) -> (r: Result<String, String>)
    ensures
        match r {
            Ok(s) => toml_pretty_text(toml_table_model(t)) == Some(s@),
            Err(_) => toml_pretty_text(toml_table_model(t)) is None,
        },
{
    match toml::to_string_pretty(&toml::Value::Table(t)) {
        Ok(s) => Ok(s),
        Err(e) => Err(e.to_string()),
    }
}

/// A library value rebuilt as a `toml` value with the same model.
pub fn value_to_toml(v: &TomlValue) -> (r: toml::Value)
    ensures
        toml_value_model(r) == v.model(),
    decreases v, 1nat,
{
    match v {
        TomlValue::String(s) => {
            let o = crate::text::owned(s.as_str());
            toml_string_value(o)
        },
        TomlValue::Integer(i) => toml_integer_value(*i),
        TomlValue::Boolean(b) => toml_boolean_value(*b),
        TomlValue::Other(x) => x.to_toml(),
        TomlValue::Array(items) => toml_array_value(values_to_toml(items)),
        TomlValue::Table(t) => toml_table_value(table_to_toml(t)),
    }
}

/// Library values rebuilt as `toml` values with the same models, in order.
fn values_to_toml(items: &Vec<TomlValue>) -> (r: Vec<toml::Value>)
    ensures
        r@.map_values(|x: toml::Value| toml_value_model(x)) == values_model(items@),
    decreases items@, 0nat,
{
    let mut out: Vec<toml::Value> = Vec::new();
    let mut i: usize = 0;
    proof {
        lemma_values_model(items@);
    }
    while i < items.len()
        invariant
            i <= items@.len(),
            out@.len() == i,
            values_model(items@).len() == items@.len(),
            forall|q: int| 0 <= q < items@.len() ==> #[trigger] values_model(items@)[q] == items@[q].model(),
            forall|q: int| 0 <= q < i ==> #[trigger] toml_value_model(out@[q]) == items@[q].model(),
        decreases items@.len() - i,
    {
        let x = value_to_toml(&items[i]);
        out.push(x);
        i = i + 1;
    }
    assert(out@.map_values(|x: toml::Value| toml_value_model(x)) =~= values_model(items@));
    out
}

/// A library table rebuilt as a `toml` table with the same model.
pub fn table_to_toml(t: &TomlTable) -> (r: toml::Table)
    ensures
        toml_table_model(r) == t.model(),
    decreases t, 0nat,
{
    let es = t.entries();
    let mut out = toml_table_new();
    let mut i: usize = 0;
    assert(es@.take(0) =~= Seq::<(String, TomlValue)>::empty());
    while i < es.len()
        invariant
            i <= es@.len(),
            es@ == t.entries_view(),
            toml_table_model(out) == crate::toml_model::entries_model(es@.take(i as int)),
        decreases es@.len() - i,
    {
        proof {
            crate::toml_model::lemma_entry_value_decreases(*t, i as int);
        }
        let x = value_to_toml(&es[i].1);
        toml_table_insert(&mut out, crate::text::owned(es[i].0.as_str()), x);
        assert(es@.take(i + 1).drop_last() =~= es@.take(i as int));
        i = i + 1;
    }
    assert(es@.take(i as int) =~= es@);
    out
}

/// The text that the `toml` crate writes for a library table, or its message where
/// it cannot.
pub fn toml_table_to_pretty_text(t: &TomlTable) -> (r: Result<String, String>)
    ensures
        match r {
            Ok(s) => toml_pretty_text(t.model()) == Some(s@),
            Err(_) => toml_pretty_text(t.model()) is None,
        },
{
    toml_table_to_string_pretty(table_to_toml(t))
}

} // verus!
