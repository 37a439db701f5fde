//! JSON values, as the compositor's messages are made of them.
use vstd::prelude::*;

use crate::text;

verus! {

/// A JSON value. The entries of an object stand in the order of the document.
#[derive(Debug)]
pub enum Json {
    Null,
    Bool(bool),
    /// A whole number that is not negative.
    Uint(u64),
    /// A negative whole number.
    Int(i64),
    /// Any other number, as it is printed again.
    Float(String),
    Text(String),
    List(Vec<Json>),
    Object(Vec<(String, Json)>),
    /// A value that is not looked into.
    Other,
}

/// What a `Json` says.
pub ghost enum JsonModel {
    Null,
    Bool(bool),
    Number(int),
    Float(Seq<char>),
    Text(Seq<char>),
    List(Seq<JsonModel>),
    Object(Seq<(Seq<char>, JsonModel)>),
    Other,
}

impl Json {
    /// What this value says.
    pub open spec fn model(self) -> JsonModel
        decreases self,
    {
        match self {
            Json::Null => JsonModel::Null,
            Json::Bool(b) => JsonModel::Bool(b),
            Json::Uint(n) => JsonModel::Number(n as int),
            Json::Int(n) => JsonModel::Number(n as int),
            Json::Float(s) => JsonModel::Float(s@),
            Json::Text(s) => JsonModel::Text(s@),
            Json::List(v) => JsonModel::List(
                Seq::new(
                    v@.len(),
                    |i: int|
                        if 0 <= i < v@.len() {
                            v@[i].model()
                        } else {
                            JsonModel::Null
                        },
                ),
            ),
            Json::Object(v) => JsonModel::Object(
                Seq::new(
                    v@.len(),
                    |i: int|
                        if 0 <= i < v@.len() {
                            (v@[i].0@, v@[i].1.model())
                        } else {
                            (Seq::empty(), JsonModel::Null)
                        },
                ),
            ),
            Json::Other => JsonModel::Other,
        }
    }
}

/// What the values of a list say.
pub open spec fn list_model(v: Seq<Json>) -> Seq<JsonModel> {
    Seq::new(v.len(), |i: int| v[i].model())
}

/// What the entries of an object say.
pub open spec fn object_model(v: Seq<(String, Json)>) -> Seq<(Seq<char>, JsonModel)> {
    Seq::new(v.len(), |i: int| (v[i].0@, v[i].1.model()))
}

/// The model of a list or an object is made of the models of its parts.
pub proof fn lemma_model(j: Json)
    ensures
        j matches Json::List(v) ==> j.model() == JsonModel::List(list_model(v@)),
        j matches Json::Object(v) ==> j.model() == JsonModel::Object(object_model(v@)),
{
    match j {
        Json::List(v) => {
            assert(j.model()->List_0 =~= list_model(v@));
        },
        Json::Object(v) => {
            assert(j.model()->Object_0 =~= object_model(v@));
        },
        _ => {},
    }
}

/// The value of the entry from `i` on with the given name. A name that stands twice has
/// no value that can be read.
pub open spec fn lookup(o: Seq<(Seq<char>, JsonModel)>, name: Seq<char>, i: int) -> Option<JsonModel>
    decreases o.len() - i,
{
    if i < 0 || i >= o.len() {
        None
    } else if o[i].0 != name {
        lookup(o, name, i + 1)
    } else if lookup(o, name, i + 1) is None {
        Some(o[i].1)
    } else {
        Some(JsonModel::Other)
    }
}

/// `serde_json::Value`, which the parser hands over.
#[verifier::external_type_specification]
#[verifier::external_body]
pub struct ExValue(serde_json::Value);

/// Changes a `serde_json::Value` into a `Json`, kind by kind.
#[verifier::external_body]
fn from_value(v: serde_json::Value) -> Json {
    match v {
        serde_json::Value::Null => Json::Null,
        serde_json::Value::Bool(b) => Json::Bool(b),
        serde_json::Value::Number(n) => match (n.as_u64(), n.as_i64()) {
            (Some(u), _) => Json::Uint(u),
            (None, Some(i)) => Json::Int(i),
            (None, None) => Json::Float(n.to_string()),
        },
        serde_json::Value::String(s) => Json::Text(s),
        serde_json::Value::Array(a) => Json::List(a.into_iter().map(from_value).collect()),
        serde_json::Value::Object(o) => Json::Object(o.into_iter().map(|(k, x)| (k, from_value(x))).collect()),
    }
}

/// Changes a `Json` into a `serde_json::Value`, kind by kind.
#[verifier::external_body]
fn to_value(j: &Json) -> serde_json::Value {
    match j {
        Json::Null => serde_json::Value::Null,
        Json::Bool(b) => serde_json::Value::Bool(*b),
        Json::Uint(n) => serde_json::Value::from(*n),
        Json::Int(n) => serde_json::Value::from(*n),
        Json::Float(s) => serde_json::from_str(s).unwrap_or_default(),
        Json::Text(s) => serde_json::Value::String(s.clone()),
        Json::List(v) => serde_json::Value::Array(v.iter().map(to_value).collect()),
        Json::Object(v) => serde_json::Value::Object(v.iter().map(|(k, x)| (k.clone(), to_value(x))).collect()),
        Json::Other => serde_json::Value::Null,
    }
}

/// The value that `serde_json::from_str` makes of a text, where it makes one.
pub uninterp spec fn parsed_json(s: Seq<char>) -> Option<JsonModel>;

/// `serde_json::from_str` into a `serde_json::Value`. Its result is named, not
/// described.
#[verifier::external_body]
fn read_value(s: &str) -> (r: Option<Json>)
    ensures
        match r {
            Some(j) => parsed_json(s@) == Some(j.model()),
            None => parsed_json(s@) is None,
        },
{
    serde_json::from_str(s).map(from_value).ok()
}

/// The value at the front of a text, as it is written, and what follows it, where
/// `serde_json::StreamDeserializer` finds one.
pub uninterp spec fn front(s: Seq<char>) -> Option<(Seq<char>, Seq<char>)>;

/// `serde_json::StreamDeserializer::next` for a `serde_json::value::RawValue`, and
/// `byte_offset` for where it ends. The result is named; a value has at least one
/// character, so that what follows it is shorter than the text.
#[verifier::external_body]
fn split_front(s: &str) -> (r: Option<(String, String)>)
    ensures
        match r {
            Some((v, rest)) => front(s@) == Some((v@, rest@)) && rest@.len() < s@.len(),
            None => front(s@) is None,
        },
{
    let mut values = serde_json::Deserializer::from_str(s).into_iter::<Box<serde_json::value::RawValue>>();
    match values.next() {
        Some(Ok(v)) => Some((v.get().to_owned(), s[values.byte_offset()..].to_owned())),
        _ => None,
    }
}

/// The values of a list, each as it is written, where `serde_json::from_str` finds a
/// list.
pub uninterp spec fn list_parts(s: Seq<char>) -> Option<Seq<Seq<char>>>;

/// `serde_json::from_str` into a list of `serde_json::value::RawValue`. Its result is
/// named, not described.
#[verifier::external_body]
fn split_list(s: &str) -> (r: Option<Vec<String>>)
    ensures
        match r {
            Some(v) => list_parts(s@) == Some(text::strs(v@)),
            None => list_parts(s@) is None,
        },
{
    let items: Option<Vec<Box<serde_json::value::RawValue>>> = serde_json::from_str(s).ok();
    items.map(|v| v.iter().map(|x| x.get().to_owned()).collect())
}

/// What `serde_json::Value` prints for a value.
pub uninterp spec fn json_text(m: JsonModel) -> Seq<char>;

/// `Display` of `serde_json::Value`: the value as compact JSON. Its result is
/// named, not described.
#[verifier::external_body]
fn write_value(j: &Json) -> (r: String)
    ensures
        r@ == json_text(j.model()),
{
    to_value(j).to_string()
}

// ---------------------------------------------------------------------------
// Documents
// ---------------------------------------------------------------------------

/// The white space between the values of a document.
pub open spec fn is_space(c: char) -> bool {
    c == ' ' || c == '\n' || c == '\t' || c == '\r'
}

/// A text without the white space at its front.
pub open spec fn unspaced(s: Seq<char>) -> Seq<char>
    decreases s.len(),
{
    if s.len() > 0 && is_space(s[0]) {
        unspaced(s.skip(1))
    } else {
        s
    }
}

/// What follows a mark, where a text begins with it.
pub open spec fn past(s: Seq<char>, mark: char) -> Option<Seq<char>> {
    let t = unspaced(s);
    if t.len() > 0 && t[0] == mark {
        Some(t.skip(1))
    } else {
        None
    }
}

/// The entries of an object from the first name on, each name and value as it is
/// written.
pub open spec fn entries_from(s: Seq<char>) -> Option<Seq<(Seq<char>, Seq<char>)>>
    decreases s.len(),
{
    match front(s) {
        Some((name, after_name)) => match past(after_name, ':') {
            Some(at_value) => match front(at_value) {
                Some((value, rest)) => match past(rest, ',') {
                    Some(next) => if next.len() < s.len() {
                        match entries_from(next) {
                            Some(more) => Some(seq![(name, value)] + more),
                            None => None,
                        }
                    } else {
                        None
                    },
                    None => match past(rest, '}') {
                        Some(end) => if unspaced(end).len() == 0 {
                            Some(seq![(name, value)])
                        } else {
                            None
                        },
                        None => None,
                    },
                },
                None => None,
            },
            None => None,
        },
        None => None,
    }
}

/// The entries of an object, in order and with those that stand twice, where a text is
/// one. Only the marks between the values are read here: the parser's own objects keep
/// one entry of each name.
pub open spec fn object_parts(s: Seq<char>) -> Option<Seq<(Seq<char>, Seq<char>)>> {
    match past(s, '{') {
        Some(inside) => match past(inside, '}') {
            Some(end) => if unspaced(end).len() == 0 {
                Some(Seq::empty())
            } else {
                None
            },
            None => entries_from(inside),
        },
        None => None,
    }
}

/// The name that a text is, as it is written.
pub open spec fn name_of(s: Seq<char>) -> Option<Seq<char>> {
    match parsed_json(s) {
        Some(JsonModel::Text(t)) => Some(t),
        _ => None,
    }
}

/// The value that a text is, where it is neither a list nor an object.
pub open spec fn scalar(s: Seq<char>) -> JsonModel {
    match parsed_json(s) {
        Some(JsonModel::List(_)) => JsonModel::Other,
        Some(JsonModel::Object(_)) => JsonModel::Other,
        Some(m) => m,
        None => JsonModel::Other,
    }
}

/// The value that a text is. What lies deeper than `depth` lists and objects is not
/// looked into, nor is what cannot be read.
pub open spec fn document(s: Seq<char>, depth: nat) -> JsonModel
    decreases depth,
{
    if depth == 0 {
        scalar(s)
    } else {
        match object_parts(s) {
            Some(parts) => if forall|i: int| 0 <= i < parts.len() ==> name_of((#[trigger] parts[i]).0) is Some {
                JsonModel::Object(
                    Seq::new(
                        parts.len(),
                        |i: int| (name_of(parts[i].0)->0, document(parts[i].1, (depth - 1) as nat)),
                    ),
                )
            } else {
                JsonModel::Other
            },
            None => match list_parts(s) {
                Some(items) => JsonModel::List(
                    Seq::new(items.len(), |i: int| document(items[i], (depth - 1) as nat)),
                ),
                None => scalar(s),
            },
        }
    }
}

/// As deep as any message of the compositor is looked into.
pub const DEPTH: usize = 8;

proof fn lemma_unspaced(s: Seq<char>)
    ensures
        unspaced(s).len() <= s.len(),
    decreases s.len(),
{
    if s.len() > 0 && is_space(s[0]) {
        lemma_unspaced(s.skip(1));
    }
}

fn first_mark(cs: &Vec<char>) -> (r: usize)
    ensures
        r <= cs@.len(),
        unspaced(cs@) == cs@.skip(r as int),
{
    let mut i: usize = 0;
    assert(cs@.skip(0) =~= cs@);
    while i < cs.len() && (cs[i] == ' ' || cs[i] == '\n' || cs[i] == '\t' || cs[i] == '\r')
        invariant
            i <= cs@.len(),
            unspaced(cs@.skip(i as int)) == unspaced(cs@),
        decreases cs@.len() - i,
    {
        assert(cs@.skip(i as int).skip(1) =~= cs@.skip(i + 1));
        i = i + 1;
    }
    i
}

fn take_mark(s: &str, mark: char) -> (r: Option<String>)
    ensures
        text::opt(r) == past(s@, mark),
        r matches Some(t) ==> t@.len() < s@.len(),
{
    let cs: Vec<char> = text::chars_of(s);
    let i: usize = first_mark(&cs);
    proof {
        lemma_unspaced(s@);
    }
    if i < cs.len() && cs[i] == mark {
        let t: String = text::string_of(&cs, i + 1, cs.len());
        assert(t@ =~= unspaced(s@).skip(1));
        Some(t)
    } else {
        None
    }
}

fn is_over(s: &str) -> (r: bool)
    ensures
        r == (unspaced(s@).len() == 0),
{
    let cs: Vec<char> = text::chars_of(s);
    first_mark(&cs) == cs.len()
}

/// What the entries of an object say, each name and value as it is written.
pub open spec fn written(v: Seq<(String, String)>) -> Seq<(Seq<char>, Seq<char>)> {
    v.map_values(|e: (String, String)| (e.0@, e.1@))
}

/// Entries that were read, and those that follow.
spec fn joined(
    before: Seq<(Seq<char>, Seq<char>)>,
    more: Option<Seq<(Seq<char>, Seq<char>)>>,
) -> Option<Seq<(Seq<char>, Seq<char>)>> {
    match more {
        Some(m) => Some(before + m),
        None => None,
    }
}

fn split_entries(s: String) -> (r: Option<Vec<(String, String)>>)
    ensures
        match r {
            Some(v) => entries_from(s@) == Some(written(v@)),
            None => entries_from(s@) is None,
        },
{
    let ghost all: Seq<char> = s@;
    let mut entries: Vec<(String, String)> = Vec::new();
    let mut left: String = s;
    proof {
        assert(written(entries@) =~= Seq::empty());
        if let Some(m) = entries_from(all) {
            assert(Seq::<(Seq<char>, Seq<char>)>::empty() + m =~= m);
        }
    }
    loop
        invariant
            all == s@,
            entries_from(all) == joined(written(entries@), entries_from(left@)),
        decreases left@.len(),
    {
        let (name, after_name) = match split_front(left.as_str()) {
            Some(p) => p,
            None => return None,
        };
        let at_value: String = match take_mark(after_name.as_str(), ':') {
            Some(t) => t,
            None => return None,
        };
        let (value, rest) = match split_front(at_value.as_str()) {
            Some(p) => p,
            None => return None,
        };
        let ghost before: Seq<(Seq<char>, Seq<char>)> = written(entries@);
        let ghost one: (Seq<char>, Seq<char>) = (name@, value@);
        entries.push((name, value));
        assert(written(entries@) =~= before.push(one));
        match take_mark(rest.as_str(), ',') {
            Some(next) => {
                proof {
                    if let Some(more) = entries_from(next@) {
                        assert(before + (seq![one] + more) =~= before.push(one) + more);
                    }
                }
                left = next;
            },
            None => {
                match take_mark(rest.as_str(), '}') {
                    Some(end) => {
                        if is_over(end.as_str()) {
                            assert(before + seq![one] =~= before.push(one));
                            return Some(entries);
                        }
                        return None;
                    },
                    None => return None,
                }
            },
        }
    }
}

fn split_object(s: &str) -> (r: Option<Vec<(String, String)>>)
    ensures
        match r {
            Some(v) => object_parts(s@) == Some(written(v@)),
            None => object_parts(s@) is None,
        },
{
    let inside: String = match take_mark(s, '{') {
        Some(t) => t,
        None => return None,
    };
    match take_mark(inside.as_str(), '}') {
        Some(end) => {
            if is_over(end.as_str()) {
                let none: Vec<(String, String)> = Vec::new();
                assert(written(none@) =~= Seq::empty());
                Some(none)
            } else {
                None
            }
        },
        None => split_entries(inside),
    }
}

fn read_name(s: &str) -> (r: Option<String>)
    ensures
        text::opt(r) == name_of(s@),
{
    match read_value(s) {
        Some(Json::Text(t)) => Some(t),
        _ => None,
    }
}

fn read_scalar(s: &str) -> (j: Json)
    ensures
        j.model() == scalar(s@),
{
    match read_value(s) {
        Some(Json::List(_)) => Json::Other,
        Some(Json::Object(_)) => Json::Other,
        Some(j) => j,
        None => Json::Other,
    }
}

fn read_entries(parts: &Vec<(String, String)>, depth: usize) -> (r: Option<Vec<(String, Json)>>)
    ensures
        match r {
            Some(v) => {
                &&& v@.len() == parts@.len()
                &&& forall|i: int|
                    0 <= i < parts@.len() ==> name_of((#[trigger] parts@[i]).0@) == Some(v@[i].0@)
                        && v@[i].1.model() == document(parts@[i].1@, depth as nat)
            },
            None => exists|i: int| 0 <= i < parts@.len() && name_of((#[trigger] parts@[i]).0@) is None,
        },
    decreases depth, 1nat,
{
    let mut v: Vec<(String, Json)> = Vec::new();
    let mut i: usize = 0;
    while i < parts.len()
        invariant
            i <= parts@.len(),
            v@.len() == i,
            forall|k: int|
                0 <= k < i ==> name_of((#[trigger] parts@[k]).0@) == Some(v@[k].0@) && v@[k].1.model()
                    == document(parts@[k].1@, depth as nat),
        decreases parts@.len() - i,
    {
        match read_name(parts[i].0.as_str()) {
            Some(name) => v.push((name, read_to(parts[i].1.as_str(), depth))),
            None => {
                assert(name_of(parts@[i as int].0@) is None);
                return None;
            },
        }
        i = i + 1;
    }
    Some(v)
}

fn read_items(items: &Vec<String>, depth: usize) -> (r: Vec<Json>)
    ensures
        r@.len() == items@.len(),
        forall|i: int| 0 <= i < items@.len() ==> (#[trigger] r@[i]).model() == document(items@[i]@, depth as nat),
    decreases depth, 1nat,
{
    let mut v: Vec<Json> = Vec::new();
    let mut i: usize = 0;
    while i < items.len()
        invariant
            i <= items@.len(),
            v@.len() == i,
            forall|k: int| 0 <= k < i ==> (#[trigger] v@[k]).model() == document(items@[k]@, depth as nat),
        decreases items@.len() - i,
    {
        v.push(read_to(items[i].as_str(), depth));
        i = i + 1;
    }
    v
}

fn read_to(s: &str, depth: usize) -> (j: Json)
    ensures
        j.model() == document(s@, depth as nat),
    decreases depth, 0nat,
{
    if depth == 0 {
        return read_scalar(s);
    }
    if let Some(parts) = split_object(s) {
        let ghost ps: Seq<(Seq<char>, Seq<char>)> = written(parts@);
        match read_entries(&parts, depth - 1) {
            Some(v) => {
                let j = Json::Object(v);
                proof {
                    lemma_model(j);
                    assert forall|i: int| 0 <= i < ps.len() implies name_of((#[trigger] ps[i]).0) is Some by {
                        assert(ps[i] == (parts@[i].0@, parts@[i].1@));
                    }
                    assert(object_model(v@) =~= document(s@, depth as nat)->Object_0);
                }
                return j;
            },
            None => {
                proof {
                    let i = choose|i: int| 0 <= i < parts@.len() && name_of((#[trigger] parts@[i]).0@) is None;
                    assert(ps[i].0 == parts@[i].0@);
                }
                return Json::Other;
            },
        }
    }
    if let Some(items) = split_list(s) {
        let v: Vec<Json> = read_items(&items, depth - 1);
        let j = Json::List(v);
        proof {
            lemma_model(j);
            assert(list_model(v@) =~= document(s@, depth as nat)->List_0);
        }
        return j;
    }
    read_scalar(s)
}

/// Reads a JSON document.
pub fn parse(s: &str) -> (j: Json)
    ensures
        j.model() == document(s@, DEPTH as nat),
{
    read_to(s, DEPTH)
}

/// Reads a text as one value, as deep as the parser goes.
pub fn parse_whole(s: &str) -> (r: Option<Json>)
    ensures
        match r {
            Some(j) => parsed_json(s@) == Some(j.model()),
            None => parsed_json(s@) is None,
        },
{
    read_value(s)
}

/// The names of entries are written without escapes.
pub open spec fn all_plain(parts: Seq<(Seq<char>, Seq<char>)>) -> bool {
    forall|i: int| 0 <= i < parts.len() ==> !text::has((#[trigger] parts[i]).0, "\\"@)
}

/// A text is an object whose names are written without escapes.
pub open spec fn has_plain_names(s: Seq<char>) -> bool {
    match object_parts(s) {
        Some(parts) => all_plain(parts),
        None => false,
    }
}

/// Whether a text is an object whose names are written without escapes.
pub fn plain_names(s: &str) -> (r: bool)
    ensures
        r == has_plain_names(s@),
{
    let parts: Vec<(String, String)> = match split_object(s) {
        Some(p) => p,
        None => return false,
    };
    let ghost ps: Seq<(Seq<char>, Seq<char>)> = written(parts@);
    let mut i: usize = 0;
    while i < parts.len()
        invariant
            i <= parts@.len(),
            ps == written(parts@),
            object_parts(s@) == Some(ps),
            forall|k: int| 0 <= k < i ==> !text::has((#[trigger] ps[k]).0, "\\"@),
        decreases parts@.len() - i,
    {
        assert(ps[i as int].0 == parts@[i as int].0@);
        if text::contains(parts[i].0.as_str(), "\\") {
            assert(!all_plain(ps));
            return false;
        }
        i = i + 1;
    }
    true
}

/// A field that stands twice cannot be read.
pub proof fn law_field_twice_is_unreadable(o: Seq<(Seq<char>, JsonModel)>, name: Seq<char>, a: int, b: int)
    requires
        0 <= a < b < o.len(),
        o[a].0 == name,
        o[b].0 == name,
    ensures
        field(JsonModel::Object(o), name, 0) == Some(JsonModel::Other),
{
    lemma_found(o, name, a, b);
    lemma_found_before(o, name, 0, a);
}

proof fn lemma_found(o: Seq<(Seq<char>, JsonModel)>, name: Seq<char>, a: int, b: int)
    requires
        0 <= a < b < o.len(),
        o[a].0 == name,
        o[b].0 == name,
    ensures
        lookup(o, name, a) == Some(JsonModel::Other),
{
    lemma_is_found(o, name, a + 1, b);
}

proof fn lemma_is_found(o: Seq<(Seq<char>, JsonModel)>, name: Seq<char>, i: int, b: int)
    requires
        0 <= i <= b < o.len(),
        o[b].0 == name,
    ensures
        lookup(o, name, i) is Some,
    decreases b - i,
{
    if i < b {
        lemma_is_found(o, name, i + 1, b);
    }
}

proof fn lemma_found_before(o: Seq<(Seq<char>, JsonModel)>, name: Seq<char>, i: int, a: int)
    requires
        0 <= i <= a < o.len(),
        lookup(o, name, a) == Some(JsonModel::Other),
    ensures
        lookup(o, name, i) == Some(JsonModel::Other),
    decreases a - i,
{
    if i < a {
        lemma_found_before(o, name, i + 1, a);
    }
}

/// Writes a JSON document.
pub fn print(j: &Json) -> (r: String)
    ensures
        r@ == json_text(j.model()),
{
    write_value(j)
}

/// A field of a structure: by its name in an object, by its place in a list.
pub open spec fn field(m: JsonModel, name: Seq<char>, i: int) -> Option<JsonModel> {
    match m {
        JsonModel::Object(o) => lookup(o, name, 0),
        JsonModel::List(l) => if 0 <= i < l.len() {
            Some(l[i])
        } else {
            None
        },
        _ => None,
    }
}

/// A value that can stand for a structure of `n` fields: an object, or a list of
/// at most `n` values.
pub open spec fn is_structure(m: JsonModel, n: int) -> bool {
    match m {
        JsonModel::Object(_) => true,
        JsonModel::List(l) => l.len() <= n,
        _ => false,
    }
}

fn find<'a>(o: &'a Vec<(String, Json)>, name: &str) -> (r: Option<&'a Json>)
    ensures
        match r {
            Some(j) => lookup(object_model(o@), name@, 0) == Some(j.model()),
            None => lookup(object_model(o@), name@, 0) is None,
        },
{
    let mut found: Option<&Json> = None;
    let mut i: usize = o.len();
    while i > 0
        invariant
            i <= o@.len(),
            match found {
                Some(j) => lookup(object_model(o@), name@, i as int) == Some(j.model()),
                None => lookup(object_model(o@), name@, i as int) is None,
            },
        decreases i,
    {
        i = i - 1;
        assert(object_model(o@)[i as int] == (o@[i as int].0@, o@[i as int].1.model()));
        if text::same(o[i].0.as_str(), name) {
            found = match found {
                None => Some(&o[i].1),
                Some(_) => Some(&Json::Other),
            };
        }
    }
    found
}

impl Json {
    /// A field of the structure that this value stands for.
    pub fn get(&self, name: &str, place: usize) -> (r: Option<&Json>)
        ensures
            match r {
                Some(j) => field(self.model(), name@, place as int) == Some(j.model()),
                None => field(self.model(), name@, place as int) is None,
            },
    {
        proof {
            lemma_model(*self);
        }
        match self {
            Json::Object(o) => find(o, name),
            Json::List(l) => {
                if place < l.len() {
                    assert(list_model(l@)[place as int] == l@[place as int].model());
                    Some(&l[place])
                } else {
                    None
                }
            },
            _ => None,
        }
    }

    /// Whether this value can stand for a structure of `n` fields.
    pub fn is_struct(&self, n: usize) -> (r: bool)
        ensures
            r == is_structure(self.model(), n as int),
    {
        proof {
            lemma_model(*self);
        }
        match self {
            Json::Object(_) => true,
            Json::List(l) => l.len() <= n,
            _ => false,
        }
    }
}

// ---------------------------------------------------------------------------
// What a structure says
// ---------------------------------------------------------------------------

/// An object holds `v` under `name`, and nothing else under it.
pub open spec fn holds_once(o: Seq<(Seq<char>, JsonModel)>, name: Seq<char>, v: JsonModel) -> bool {
    exists|i: int|
        0 <= i < o.len() && #[trigger] o[i] == (name, v) && forall|j: int|
            0 <= j < o.len() && (#[trigger] o[j]).0 == name ==> j == i
}

/// No entry of an object has this name.
pub open spec fn lacks(o: Seq<(Seq<char>, JsonModel)>, name: Seq<char>) -> bool {
    forall|i: int| 0 <= i < o.len() ==> (#[trigger] o[i]).0 != name
}

/// A name stands twice in an object.
pub open spec fn holds_twice(o: Seq<(Seq<char>, JsonModel)>, name: Seq<char>) -> bool {
    exists|i: int, j: int| 0 <= i < j < o.len() && (#[trigger] o[i]).0 == name && (#[trigger] o[j]).0 == name
}

/// A structure says `v` of the field `name`, which is its field number `place`: as the one
/// value under this name in an object, or as the value at this place in a list. `None` is
/// a field of which it says nothing.
pub open spec fn says(m: JsonModel, name: Seq<char>, place: int, v: Option<JsonModel>) -> bool {
    match (m, v) {
        (JsonModel::Object(o), Some(f)) => holds_once(o, name, f),
        (JsonModel::Object(o), None) => lacks(o, name),
        (JsonModel::List(l), Some(f)) => 0 <= place < l.len() && l[place] == f,
        (JsonModel::List(l), None) => l.len() <= place,
        _ => false,
    }
}

proof fn lemma_lacking(o: Seq<(Seq<char>, JsonModel)>, name: Seq<char>, i: int)
    requires
        0 <= i,
        forall|j: int| i <= j < o.len() ==> (#[trigger] o[j]).0 != name,
    ensures
        lookup(o, name, i) is None,
    decreases o.len() - i,
{
    if i < o.len() {
        lemma_lacking(o, name, i + 1);
    }
}

proof fn lemma_held(o: Seq<(Seq<char>, JsonModel)>, name: Seq<char>, i: int, k: int)
    requires
        0 <= i <= k < o.len(),
        o[k].0 == name,
        forall|j: int| i <= j < o.len() && (#[trigger] o[j]).0 == name ==> j == k,
    ensures
        lookup(o, name, i) == Some(o[k].1),
    decreases k - i,
{
    if i < k {
        lemma_held(o, name, i + 1, k);
    } else {
        lemma_lacking(o, name, k + 1);
    }
}

/// A field of a structure is the one value under its name in an object, and the value at its
/// place in a list, whatever else the structure holds.
pub proof fn law_field_is_what_is_said(m: JsonModel, name: Seq<char>, place: int, v: Option<JsonModel>)
    requires
        0 <= place,
        says(m, name, place, v),
    ensures
        field(m, name, place) == v,
{
    if let JsonModel::Object(o) = m {
        if let Some(f) = v {
            let i = choose|i: int|
                0 <= i < o.len() && #[trigger] o[i] == (name, f) && forall|j: int|
                    0 <= j < o.len() && (#[trigger] o[j]).0 == name ==> j == i;
            lemma_held(o, name, 0, i);
        } else {
            lemma_lacking(o, name, 0);
        }
    }
}

// ---------------------------------------------------------------------------
// What a document says
// ---------------------------------------------------------------------------

proof fn lemma_spaces_taken_off(a: Seq<char>, t: Seq<char>)
    requires
        forall|i: int| 0 <= i < a.len() ==> (#[trigger] a[i] == ' ' || a[i] == '\n' || a[i] == '\t' || a[i] == '\r'),
    ensures
        unspaced(a + t) == unspaced(t),
    decreases a.len(),
{
    let s = a + t;
    if a.len() > 0 {
        assert(s[0] == a[0]);
        let d = a.skip(1);
        assert(s.skip(1) =~= d + t);
        assert forall|i: int| 0 <= i < d.len() implies (#[trigger] d[i] == ' ' || d[i] == '\n' || d[i] == '\t' || d[i]
            == '\r') by {
            assert(d[i] == a[i + 1]);
        }
        lemma_spaces_taken_off(d, t);
    } else {
        assert(s =~= t);
    }
}

/// Spaces, tabs and line breaks before a mark do not count, and the mark is passed.
pub proof fn law_marks_stand_behind_white_space(a: Seq<char>, mark: char, t: Seq<char>)
    requires
        forall|i: int| 0 <= i < a.len() ==> (#[trigger] a[i] == ' ' || a[i] == '\n' || a[i] == '\t' || a[i] == '\r'),
        mark != ' ' && mark != '\n' && mark != '\t' && mark != '\r',
    ensures
        past(a + seq![mark] + t, mark) == Some(t),
        forall|other: char| other != mark ==> #[trigger] past(a + seq![mark] + t, other) is None,
        forall|other: char| #[trigger] past(a, other) is None,
{
    let s = seq![mark] + t;
    assert(a + seq![mark] + t =~= a + s);
    lemma_spaces_taken_off(a, s);
    assert(s.skip(1) =~= t);
    lemma_spaces_taken_off(a, Seq::empty());
    assert(a + Seq::<char>::empty() =~= a);
}

/// An object without entries is a pair of braces.
pub proof fn law_braces_alone_hold_nothing(s: Seq<char>, inside: Seq<char>, end: Seq<char>)
    requires
        past(s, '{') == Some(inside),
        past(inside, '}') == Some(end),
    ensures
        unspaced(end).len() == 0 ==> object_parts(s) is Some && object_parts(s)->0.len() == 0,
        unspaced(end).len() > 0 ==> object_parts(s) is None,
{
}

/// The entries of an object are a name, a colon and a value each, with commas between them
/// and a brace behind the last, and nothing after it.
pub proof fn law_entries_are_names_and_values(
    s: Seq<char>,
    name: Seq<char>,
    after_name: Seq<char>,
    at_value: Seq<char>,
    value: Seq<char>,
    rest: Seq<char>,
    next: Seq<char>,
)
    requires
        front(s) == Some((name, after_name)),
        past(after_name, ':') == Some(at_value),
        front(at_value) == Some((value, rest)),
    ensures
        past(rest, '}') == Some(next) && past(rest, ',') is None && unspaced(next).len() == 0 ==> entries_from(s) == Some(
            seq![(name, value)],
        ),
        past(rest, '}') == Some(next) && past(rest, ',') is None && unspaced(next).len() > 0 ==> entries_from(s) is None,
        past(rest, ',') == Some(next) && next.len() < s.len() && entries_from(next) is Some ==> entries_from(s) == Some(
            seq![(name, value)] + entries_from(next)->0,
        ),
        past(rest, ',') == Some(next) && entries_from(next) is None ==> entries_from(s) is None,
        past(rest, ',') is None && past(rest, '}') is None ==> entries_from(s) is None,
{
}

/// The document of an object holds its entries in their order, each under its name, as the
/// document that its value is.
pub proof fn law_object_holds_its_entries(s: Seq<char>, depth: nat, i: int)
    requires
        depth > 0,
        object_parts(s) is Some,
        forall|k: int| 0 <= k < object_parts(s)->0.len() ==> name_of((#[trigger] object_parts(s)->0[k]).0) is Some,
    ensures
        document(s, depth) matches JsonModel::Object(o) && o.len() == object_parts(s)->0.len() && (0 <= i < o.len()
            ==> Some(o[i].0) == name_of(object_parts(s)->0[i].0) && o[i].1 == document(
            object_parts(s)->0[i].1,
            (depth - 1) as nat,
        )),
{
}

/// The document of a list holds its values in their order, each as the document that it is.
pub proof fn law_list_holds_its_values(s: Seq<char>, depth: nat, i: int)
    requires
        depth > 0,
        object_parts(s) is None,
        list_parts(s) is Some,
    ensures
        document(s, depth) matches JsonModel::List(l) && l.len() == list_parts(s)->0.len() && (0 <= i < l.len() ==> l[i]
            == document(list_parts(s)->0[i], (depth - 1) as nat)),
{
}

/// What is neither an object nor a list is the value that the parser makes of it.
pub proof fn law_plain_values_are_what_the_parser_says(s: Seq<char>, depth: nat, m: JsonModel)
    requires
        object_parts(s) is None,
        list_parts(s) is None,
        parsed_json(s) == Some(m),
        !(m is List) && !(m is Object),
    ensures
        document(s, depth) == m,
{
}

/// A text that the parser cannot read says nothing.
pub proof fn law_unreadable_text_says_nothing(s: Seq<char>, depth: nat)
    requires
        object_parts(s) is None,
        list_parts(s) is None,
        parsed_json(s) is None,
    ensures
        document(s, depth) is Other,
{
}

/// The entries of an object stand for their names and values one by one.
pub proof fn law_entries_stand_in_their_order(o: Seq<(String, Json)>, e: Seq<(String, String)>, i: int)
    ensures
        object_model(o).len() == o.len(),
        0 <= i < o.len() ==> object_model(o)[i].0 == o[i].0@ && object_model(o)[i].1 == o[i].1.model(),
        written(e).len() == e.len(),
        0 <= i < e.len() ==> written(e)[i].0 == e[i].0@ && written(e)[i].1 == e[i].1@,
{
}

/// The names of an object are plain where none of them holds a backslash; what is no object has
/// no plain names.
pub proof fn law_plain_names_hold_no_backslash(s: Seq<char>, i: int)
    ensures
        object_parts(s) is None ==> !has_plain_names(s),
        has_plain_names(s) && 0 <= i < object_parts(s)->0.len() ==> !text::has(object_parts(s)->0[i].0, "\\"@),
        object_parts(s) is Some && (forall|k: int|
            0 <= k < object_parts(s)->0.len() ==> !text::has((#[trigger] object_parts(s)->0[k]).0, "\\"@))
            ==> has_plain_names(s),
{
}

/// An object with a name that cannot be read says nothing.
pub proof fn law_unreadable_name_says_nothing(s: Seq<char>, depth: nat, i: int)
    requires
        depth > 0,
        object_parts(s) is Some,
        0 <= i < object_parts(s)->0.len(),
        name_of(object_parts(s)->0[i].0) is None,
    ensures
        document(s, depth) is Other,
{
}

} // verus!
