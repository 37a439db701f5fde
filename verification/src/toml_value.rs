//! TOML values, as the configuration file is made of them.
use vstd::prelude::*;

use crate::text;

verus! {

/// A TOML value. The entries of a table stand in the order of their names.
#[derive(Debug)]
pub enum Toml {
    Text(String),
    Integer(i64),
    /// A number that is not whole, as it is printed again.
    Float(String),
    Boolean(bool),
    /// A date or time, as it is printed again.
    Datetime(String),
    Array(Vec<Toml>),
    Table(Vec<(String, Toml)>),
}

/// What a `Toml` says.
pub ghost enum TomlModel {
    Text(Seq<char>),
    Integer(i64),
    Float(Seq<char>),
    Boolean(bool),
    Datetime(Seq<char>),
    Array(Seq<TomlModel>),
    Table(Seq<(Seq<char>, TomlModel)>),
}

impl Toml {
    /// What this value says.
    pub open spec fn model(self) -> TomlModel
        decreases self,
    {
        match self {
            Toml::Text(s) => TomlModel::Text(s@),
            Toml::Integer(n) => TomlModel::Integer(n),
            Toml::Float(s) => TomlModel::Float(s@),
            Toml::Boolean(b) => TomlModel::Boolean(b),
            Toml::Datetime(s) => TomlModel::Datetime(s@),
            Toml::Array(v) => TomlModel::Array(
                Seq::new(
                    v@.len(),
                    |i: int|
                        if 0 <= i < v@.len() {
                            v@[i].model()
                        } else {
                            TomlModel::Boolean(false)
                        },
                ),
            ),
            Toml::Table(v) => TomlModel::Table(
                Seq::new(
                    v@.len(),
                    |i: int|
                        if 0 <= i < v@.len() {
                            (v@[i].0@, v@[i].1.model())
                        } else {
                            (Seq::empty(), TomlModel::Boolean(false))
                        },
                ),
            ),
        }
    }
}

/// What the values of an array say.
pub open spec fn array_model(v: Seq<Toml>) -> Seq<TomlModel> {
    Seq::new(v.len(), |i: int| v[i].model())
}

/// What the entries of a table say.
pub open spec fn table_model(v: Seq<(String, Toml)>) -> Seq<(Seq<char>, TomlModel)> {
    Seq::new(v.len(), |i: int| (v[i].0@, v[i].1.model()))
}

/// The model of an array or a table is made of the models of its parts.
pub proof fn lemma_model(t: Toml)
    ensures
        t matches Toml::Array(v) ==> t.model() == TomlModel::Array(array_model(v@)),
        t matches Toml::Table(v) ==> t.model() == TomlModel::Table(table_model(v@)),
{
    match t {
        Toml::Array(v) => {
            assert(t.model()->Array_0 =~= array_model(v@));
        },
        Toml::Table(v) => {
            assert(t.model()->Table_0 =~= table_model(v@));
        },
        _ => {},
    }
}

/// The value of the first entry from `i` on with the given name.
pub open spec fn lookup(o: Seq<(Seq<char>, TomlModel)>, name: Seq<char>, i: int) -> Option<TomlModel>
    decreases o.len() - i,
{
    if i < 0 || i >= o.len() {
        None
    } else if o[i].0 == name {
        Some(o[i].1)
    } else {
        lookup(o, name, i + 1)
    }
}

/// A field of a section: by its name in a table, by its place in an array. The
/// name `skip` counts as missing.
pub open spec fn field(m: TomlModel, name: Seq<char>, place: int, skip: Option<Seq<char>>) -> Option<
    TomlModel,
> {
    match m {
        TomlModel::Table(o) => if skip == Some(name) {
            None
        } else {
            lookup(o, name, 0)
        },
        TomlModel::Array(a) => if 0 <= place < a.len() {
            Some(a[place])
        } else {
            None
        },
        _ => None,
    }
}

/// `toml::Value`, which the parser hands over.
#[verifier::external_type_specification]
#[verifier::external_body]
pub struct ExTomlValue(toml::Value);

/// Changes a `toml::Value` into a `Toml`, kind by kind.
#[verifier::external_body]
fn from_value(v: toml::Value) -> Toml {
    match v {
        toml::Value::String(s) => Toml::Text(s),
        toml::Value::Integer(n) => Toml::Integer(n),
        toml::Value::Float(f) => Toml::Float(f.to_string()),
        toml::Value::Boolean(b) => Toml::Boolean(b),
        toml::Value::Datetime(d) => Toml::Datetime(d.to_string()),
        toml::Value::Array(a) => Toml::Array(a.into_iter().map(from_value).collect()),
        toml::Value::Table(t) => Toml::Table(t.into_iter().map(|(k, x)| (k, from_value(x))).collect()),
    }
}

/// What `toml::from_str` makes of a text: the table, or the words of the error.
pub uninterp spec fn parsed_toml(s: Seq<char>) -> Result<TomlModel, Seq<char>>;

/// `toml::from_str` into a `toml::Table`. Its result is named, not described; it
/// is a table where it is no error.
#[verifier::external_body]
fn read_table(s: &str) -> (r: Result<Toml, String>)
    ensures
        match r {
            Ok(t) => parsed_toml(s@) == Ok::<TomlModel, Seq<char>>(t.model()) && t is Table,
            Err(e) => parsed_toml(s@) == Err::<TomlModel, Seq<char>>(e@),
        },
{
    let table: Result<toml::Table, toml::de::Error> = toml::from_str(s);
    table.map(|t| from_value(toml::Value::Table(t))).map_err(|e| e.to_string())
}

/// Reads a TOML document.
pub fn parse(s: &str) -> (r: Result<Toml, String>)
    ensures
        match r {
            Ok(t) => parsed_toml(s@) == Ok::<TomlModel, Seq<char>>(t.model()) && t is Table,
            Err(e) => parsed_toml(s@) == Err::<TomlModel, Seq<char>>(e@),
        },
{
    read_table(s)
}

impl Toml {
    /// A field of the section that this value stands for.
    pub fn get(&self, name: &str, place: usize, skip: Option<&str>) -> (r: Option<&Toml>)
        ensures
            match r {
                Some(t) => field(self.model(), name@, place as int, text::opt_str(skip)) == Some(t.model()),
                None => field(self.model(), name@, place as int, text::opt_str(skip)) is None,
            },
    {
        proof {
            lemma_model(*self);
        }
        match self {
            Toml::Table(o) => {
                if let Some(k) = skip {
                    if text::same(k, name) {
                        return None;
                    }
                }
                let mut i: usize = 0;
                while i < o.len()
                    invariant
                        i <= o@.len(),
                        lookup(table_model(o@), name@, i as int) == lookup(table_model(o@), name@, 0),
                        self.model() == TomlModel::Table(table_model(o@)),
                        text::opt_str(skip) != Some(name@),
                    decreases o@.len() - i,
                {
                    assert(table_model(o@)[i as int] == (o@[i as int].0@, o@[i as int].1.model()));
                    if text::same(o[i].0.as_str(), name) {
                        return Some(&o[i].1);
                    }
                    i = i + 1;
                }
                None
            },
            Toml::Array(a) => {
                if place < a.len() {
                    assert(array_model(a@)[place as int] == a@[place as int].model());
                    Some(&a[place])
                } else {
                    None
                }
            },
            _ => None,
        }
    }
}

// ---------------------------------------------------------------------------
// What a section says
// ---------------------------------------------------------------------------

/// A section says `v` of the field `name`, which is its field number `place`: as the first
/// value under this name in a table, or as the value at this place in an array. `None` is a
/// field of which it says nothing.
pub open spec fn says(m: TomlModel, name: Seq<char>, place: int, v: Option<TomlModel>) -> bool {
    match (m, v) {
        (TomlModel::Table(o), Some(f)) => exists|i: int|
            0 <= i < o.len() && #[trigger] o[i] == (name, f) && forall|j: int|
                0 <= j < i ==> (#[trigger] o[j]).0 != name,
        (TomlModel::Table(o), None) => forall|i: int| 0 <= i < o.len() ==> (#[trigger] o[i]).0 != name,
        (TomlModel::Array(a), Some(f)) => 0 <= place < a.len() && a[place] == f,
        (TomlModel::Array(a), None) => a.len() <= place,
        _ => false,
    }
}

proof fn lemma_first_named(o: Seq<(Seq<char>, TomlModel)>, name: Seq<char>, i: int, k: int)
    requires
        0 <= i <= k <= o.len(),
        forall|j: int| i <= j < k ==> (#[trigger] o[j]).0 != name,
        k < o.len() ==> o[k].0 == name,
    ensures
        lookup(o, name, i) == (if k < o.len() {
            Some(o[k].1)
        } else {
            None
        }),
    decreases k - i,
{
    if i < k {
        assert(o[i].0 != name);
        lemma_first_named(o, name, i + 1, k);
    }
}

/// A field is what is said of it, whatever else the section holds. A field to skip counts as
/// missing in a table, and only that.
pub proof fn law_field_is_what_is_said(m: TomlModel, name: Seq<char>, place: int, v: Option<TomlModel>)
    requires
        0 <= place,
        says(m, name, place, v),
    ensures
        field(m, name, place, None) == v,
        forall|skip: Seq<char>| skip != name ==> #[trigger] field(m, name, place, Some(skip)) == v,
        m is Table ==> field(m, name, place, Some(name)) is None,
{
    if let TomlModel::Table(o) = m {
        if let Some(f) = v {
            let i = choose|i: int|
                0 <= i < o.len() && #[trigger] o[i] == (name, f) && forall|j: int|
                    0 <= j < i ==> (#[trigger] o[j]).0 != name;
            lemma_first_named(o, name, 0, i);
        } else {
            lemma_first_named(o, name, 0, o.len() as int);
        }
    }
}

proof fn lemma_lookup_says(o: Seq<(Seq<char>, TomlModel)>, name: Seq<char>, i: int)
    requires
        0 <= i <= o.len(),
        forall|j: int| 0 <= j < i ==> (#[trigger] o[j]).0 != name,
    ensures
        says(TomlModel::Table(o), name, 0, lookup(o, name, i)),
    decreases o.len() - i,
{
    if i < o.len() {
        if o[i].0 == name {
            let f = o[i].1;
            assert(o[i] == (name, f));
            assert(lookup(o, name, i) == Some(f));
            assert(says(TomlModel::Table(o), name, 0, Some(f)));
        } else {
            lemma_lookup_says(o, name, i + 1);
        }
    } else {
        assert(lookup(o, name, i) is None);
        assert(says(TomlModel::Table(o), name, 0, None));
    }
}

/// A table says something of each field: the first value under its name, or nothing.
pub proof fn law_table_says_its_first_values(o: Seq<(Seq<char>, TomlModel)>, name: Seq<char>)
    ensures
        says(TomlModel::Table(o), name, 0, field(TomlModel::Table(o), name, 0, None)),
{
    lemma_lookup_says(o, name, 0);
}

} // verus!
