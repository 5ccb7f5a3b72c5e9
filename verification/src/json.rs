//! JSON values: the settings document and the replies to control commands.
use serde_json::Value;
use vstd::prelude::*;
use vstd::string::*;

use crate::float_bits::{double_of_unsigned, natural_as_double, DOUBLE_SIGN};
use crate::float_laws::{encodes, lemma_integer_encoded};
use crate::text::same;

verus! {

/// A JSON value.
///
/// An object is a list of entries in which a later entry replaces an earlier one
/// with the same key.
#[derive(Debug, PartialEq)]
pub enum Json {
    Null,
    Bool(bool),
    Number(JsonNumber),
    Text(String),
    Array(Vec<Json>),
    Object(Vec<(String, Json)>),
}

/// A JSON number: an integer where it was written as one, else the bit pattern
/// of a double-precision number.
#[derive(Clone, Copy, Debug, PartialEq, Eq, Structural)]
pub enum JsonNumber {
    Unsigned(u64),
    Negative(i64),
    Float(u64),
}

/// What a [`Json`] value stands for.
pub ghost enum JsonView {
    Null,
    Bool(bool),
    Number(JsonNumber),
    Text(Seq<char>),
    Array(Seq<JsonView>),
    Object(Map<Seq<char>, JsonView>),
}

impl View for Json {
    type V = JsonView;

    open spec fn view(&self) -> JsonView {
        self.model()
    }
}

impl Json {
    /// The value without regard to how it is stored.
    pub open spec fn model(&self) -> JsonView
        decreases self,
    {
        match self {
            Json::Null => JsonView::Null,
            Json::Bool(b) => JsonView::Bool(*b),
            Json::Number(n) => JsonView::Number(*n),
            Json::Text(s) => JsonView::Text(s@),
            Json::Array(items) => JsonView::Array(
                Seq::new(
                    items@.len(),
                    |i: int|
                        if 0 <= i < items@.len() {
                            items@[i].model()
                        } else {
                            JsonView::Null
                        },
                ),
            ),
            Json::Object(entries) => JsonView::Object(fields(entries@, entries@.len())),
        }
    }
}

/// The fields that the first `n` entries define.
pub open spec fn fields(entries: Seq<(String, Json)>, n: nat) -> Map<Seq<char>, JsonView>
    decreases entries, n,
{
    if n == 0 || n > entries.len() {
        Map::empty()
    } else {
        fields(entries, (n - 1) as nat).insert(entries[n - 1].0@, entries[n - 1].1.model())
    }
}

/// The fields that a list of entries defines.
pub open spec fn object_of(entries: Seq<(String, Json)>) -> Map<Seq<char>, JsonView> {
    fields(entries, entries.len())
}

/// The views of a list of values.
pub open spec fn views(items: Seq<Json>) -> Seq<JsonView> {
    Seq::new(items.len(), |i: int| items[i]@)
}

impl JsonView {
    /// The value of a field; `None` for a missing field and for what is no object.
    pub open spec fn field(self, key: Seq<char>) -> Option<JsonView> {
        match self {
            JsonView::Object(m) => if m.contains_key(key) {
                Some(m[key])
            } else {
                None
            },
            _ => None,
        }
    }

    pub open spec fn truth(self) -> Option<bool> {
        match self {
            JsonView::Bool(b) => Some(b),
            _ => None,
        }
    }

    pub open spec fn string(self) -> Option<Seq<char>> {
        match self {
            JsonView::Text(s) => Some(s),
            _ => None,
        }
    }

    /// The double-precision pattern of a number, an integer being rounded to the
    /// nearest one.
    pub open spec fn double(self) -> Option<u64> {
        match self {
            JsonView::Number(n) => Some(number_as_double(n)),
            _ => None,
        }
    }
}

/// The double-precision pattern of a JSON number.
pub open spec fn number_as_double(n: JsonNumber) -> u64 {
    match n {
        JsonNumber::Unsigned(u) => natural_as_double(u as nat) as u64,
        JsonNumber::Negative(i) => if i < 0 {
            (DOUBLE_SIGN + natural_as_double((-i) as nat)) as u64
        } else {
            natural_as_double(i as nat) as u64
        },
        JsonNumber::Float(bits) => bits,
    }
}

proof fn lemma_fields_step(entries: Seq<(String, Json)>, n: nat)
    requires
        n < entries.len(),
    ensures
        fields(entries, 0) == Map::<Seq<char>, JsonView>::empty(),
        fields(entries, n + 1) == fields(entries, n).insert(
            entries[n as int].0@,
            entries[n as int].1@,
        ),
{
    reveal_with_fuel(fields, 2);
}

proof fn lemma_array_model(items: Vec<Json>)
    ensures
        Json::Array(items)@ == JsonView::Array(views(items@)),
{
    reveal_with_fuel(Json::model, 2);
    assert(Json::Array(items)@->Array_0 =~= views(items@));
}

proof fn lemma_fields_prefix(a: Seq<(String, Json)>, b: Seq<(String, Json)>, n: nat)
    requires
        n <= a.len(),
        n <= b.len(),
        forall|i: int| 0 <= i < n ==> a[i] == b[i],
    ensures
        fields(a, n) == fields(b, n),
    decreases n,
{
    reveal_with_fuel(fields, 2);
    if n > 0 {
        lemma_fields_prefix(a, b, (n - 1) as nat);
    }
}

/// Appending an entry defines its field anew.
pub proof fn lemma_object_of_push(entries: Seq<(String, Json)>, entry: (String, Json))
    ensures
        object_of(entries.push(entry)) == object_of(entries).insert(entry.0@, entry.1@),
{
    lemma_fields_prefix(entries.push(entry), entries, entries.len());
    lemma_fields_step(entries.push(entry), entries.len());
}

/// The last entry of a key, if there is one.
pub fn lookup<'a>(entries: &'a Vec<(String, Json)>, key: &str) -> (r: Option<&'a Json>)
    ensures
        match r {
            Some(v) => object_of(entries@).contains_key(key@) && object_of(entries@)[key@] == v@,
            None => !object_of(entries@).contains_key(key@),
        },
{
    let mut i: usize = entries.len();
    while i > 0
        invariant
            i <= entries@.len(),
            object_of(entries@).contains_key(key@) == fields(entries@, i as nat).contains_key(key@),
            object_of(entries@).contains_key(key@) ==> object_of(entries@)[key@] == fields(
                entries@,
                i as nat,
            )[key@],
        decreases i,
    {
        i -= 1;
        let entry = &entries[i];
        proof {
            lemma_fields_step(entries@, i as nat);
        }
        if same(entry.0.as_str(), key) {
            return Some(&entry.1);
        }
    }
    None
}

/// The entries without those of one key.
pub fn without(entries: Vec<(String, Json)>, key: &str) -> (r: Vec<(String, Json)>)
    ensures
        object_of(r@) == object_of(entries@).remove(key@),
{
    let ghost all = entries@;
    let mut out: Vec<(String, Json)> = Vec::new();
    assert(object_of(out@) =~= fields(all, 0).remove(key@));
    for entry in it: entries
        invariant
            it.seq() == all,
            object_of(out@) == fields(all, it.index() as nat).remove(key@),
    {
        let ghost before = out@;
        let ghost n = it.index() as nat;
        proof {
            lemma_fields_step(all, n);
        }
        if !same(entry.0.as_str(), key) {
            out.push(entry);
            proof {
                lemma_object_of_push(before, entry);
                assert(fields(all, n).remove(key@).insert(entry.0@, entry.1@) =~= fields(
                    all,
                    n + 1,
                ).remove(key@));
            }
        } else {
            assert(fields(all, n).remove(key@) =~= fields(all, n + 1).remove(key@));
        }
    }
    out
}

impl Json {
    pub fn text(s: &str) -> (r: Json)
        ensures
            r@ == JsonView::Text(s@),
    {
        Json::Text(s.to_owned())
    }

    pub fn unsigned(n: u64) -> (r: Json)
        ensures
            r@ == JsonView::Number(JsonNumber::Unsigned(n)),
    {
        Json::Number(JsonNumber::Unsigned(n))
    }

    /// An array.
    pub fn array(items: Vec<Json>) -> (r: Json)
        ensures
            r@ == JsonView::Array(views(items@)),
    {
        proof {
            lemma_array_model(items);
        }
        Json::Array(items)
    }

    /// An object without fields.
    pub fn object() -> (r: Json)
        ensures
            r@ == JsonView::Object(Map::empty()),
    {
        let entries: Vec<(String, Json)> = Vec::new();
        proof {
            reveal_with_fuel(Json::model, 2);
        }
        Json::Object(entries)
    }

    /// The object that a list of entries defines.
    pub fn of_entries(entries: Vec<(String, Json)>) -> (r: Json)
        ensures
            r@ == JsonView::Object(object_of(entries@)),
    {
        Json::Object(entries)
    }

    /// The object with one field set. What is no object is left as it is.
    pub fn with(self, key: &str, value: Json) -> (r: Json)
        ensures
            r@ == (match self@ {
                JsonView::Object(m) => JsonView::Object(m.insert(key@, value@)),
                v => v,
            }),
    {
        match self {
            Json::Object(entries) => {
                let mut entries = entries;
                let ghost before = entries@;
                entries.push((key.to_owned(), value));
                proof {
                    lemma_object_of_push(before, entries@.last());
                    assert(entries@ == before.push(entries@.last()));
                }
                Json::Object(entries)
            },
            other => other,
        }
    }

    /// The value of a field.
    pub fn get(&self, key: &str) -> (r: Option<&Json>)
        ensures
            self@.field(key@) == (match r {
                Some(v) => Some(v@),
                None => None,
            }),
    {
        match self {
            Json::Object(entries) => lookup(entries, key),
            _ => None,
        }
    }

    pub fn as_bool(&self) -> (r: Option<bool>)
        ensures
            r == self@.truth(),
    {
        match self {
            Json::Bool(b) => Some(*b),
            _ => None,
        }
    }

    pub fn as_str(&self) -> (r: Option<&str>)
        ensures
            self@.string() == (match r {
                Some(s) => Some(s@),
                None => None,
            }),
    {
        match self {
            Json::Text(s) => Some(s.as_str()),
            _ => None,
        }
    }

    /// The number as a double-precision pattern.
    pub fn as_double(&self) -> (r: Option<u64>)
        ensures
            r == self@.double(),
    {
        match self {
            Json::Number(JsonNumber::Unsigned(n)) => Some(double_of_unsigned(*n)),
            Json::Number(JsonNumber::Negative(n)) => {
                let n: i64 = *n;
                if n >= 0 {
                    Some(double_of_unsigned(n as u64))
                } else if n == i64::MIN {
                    Some(DOUBLE_SIGN + double_of_unsigned(DOUBLE_SIGN))
                } else {
                    Some(DOUBLE_SIGN + double_of_unsigned((-n) as u64))
                }
            },
            Json::Number(JsonNumber::Float(bits)) => Some(*bits),
            _ => None,
        }
    }

    /// A copy of the value.
    pub fn copy(&self) -> (r: Json)
        ensures
            r@ == self@,
        decreases self,
    {
        match self {
            Json::Null => Json::Null,
            Json::Bool(b) => Json::Bool(*b),
            Json::Number(n) => Json::Number(*n),
            Json::Text(s) => Json::Text(s.clone()),
            Json::Array(items) => {
                let mut out: Vec<Json> = Vec::new();
                let mut i: usize = 0;
                while i < items.len()
                    invariant
                        i <= items@.len(),
                        views(out@) =~= views(items@).take(i as int),
                        self matches Json::Array(v) && v == items,
                    decreases items@.len() - i,
                {
                    let ghost before = out@;
                    let copied = items[i].copy();
                    out.push(copied);
                    assert(views(out@) =~= views(before).push(items@[i as int]@));
                    i += 1;
                }
                assert(views(items@).take(i as int) =~= views(items@));
                proof {
                    lemma_array_model(*items);
                }
                Json::array(out)
            },
            Json::Object(entries) => {
                let mut out: Vec<(String, Json)> = Vec::new();
                let mut i: usize = 0;
                while i < entries.len()
                    invariant
                        i <= entries@.len(),
                        object_of(out@) == fields(entries@, i as nat),
                        self matches Json::Object(v) && v == entries,
                    decreases entries@.len() - i,
                {
                    let entry = &entries[i];
                    let ghost before = out@;
                    proof {
                        lemma_fields_step(entries@, i as nat);
                    }
                    let copied = entry.1.copy();
                    out.push((entry.0.clone(), copied));
                    proof {
                        lemma_object_of_push(before, out@.last());
                        assert(out@ == before.push(out@.last()));
                    }
                    i += 1;
                }
                Json::Object(out)
            },
        }
    }
}

/// A value as `serde_json` holds it.
#[verifier::external_type_specification]
#[verifier::external_body]
pub struct ExValue(Value);

/// What `serde_json` reads in a text: the document, or what it says is wrong.
pub uninterp spec fn parsed_json(text: Seq<char>) -> Result<JsonView, Seq<char>>;

/// Converts a value of `serde_json`, one for one: an integer that fits in 64 bits
/// stays one, any other number becomes its double-precision pattern.
#[verifier::external_body]
fn converted(value: Value) -> Json {
    match value {
        Value::Null => Json::Null,
        Value::Bool(flag) => Json::Bool(flag),
        Value::Number(n) => Json::Number(match (n.as_u64(), n.as_i64()) {
            (Some(unsigned), _) => JsonNumber::Unsigned(unsigned),
            (None, Some(signed)) => JsonNumber::Negative(signed),
            (None, None) => JsonNumber::Float(n.as_f64().unwrap_or_default().to_bits()),
        }),
        Value::String(text) => Json::Text(text),
        Value::Array(items) => Json::Array(items.into_iter().map(converted).collect()),
        Value::Object(fields) => Json::Object(
            fields.into_iter().map(|(key, value)| (key, converted(value))).collect(),
        ),
    }
}

/// `serde_json::from_str::<serde_json::Value>`: the document in a text, or the
/// message of the error. What a text holds is left to the name.
#[verifier::external_body]
pub(crate) fn read_json(text: &str) -> (r: Result<Json, String>)
    ensures
        parsed_json(text@) == (match r {
            Ok(document) => Ok(document@),
            Err(cause) => Err(cause@),
        }),
{
    serde_json::from_str(text).map(converted).map_err(|err| err.to_string())
}

proof fn lemma_fields_of_front(entries: Seq<(String, Json)>, entry: (String, Json), n: nat)
    requires
        n <= entries.len(),
    ensures
        fields(entries.push(entry), n) == fields(entries, n),
    decreases n,
{
    if n > 0 {
        lemma_fields_of_front(entries, entry, (n - 1) as nat);
    }
}

/// Of two entries under one key the later one counts; entries under other keys are
/// left alone.
pub proof fn lemma_last_entry_counts(entries: Seq<(String, Json)>, entry: (String, Json))
    ensures
        object_of(entries.push(entry)) == object_of(entries).insert(entry.0@, entry.1@),
        object_of(Seq::empty()) == Map::<Seq<char>, JsonView>::empty(),
{
    lemma_fields_of_front(entries, entry, entries.len());
}

/// A whole number in a document stands for itself.
pub proof fn lemma_whole_numbers(n: i32)
    requires
        n > i32::MIN,
    ensures
        n >= 0 ==> encodes(number_as_double(JsonNumber::Unsigned(n as u64)), n as int),
        encodes(number_as_double(JsonNumber::Negative(n as i64)), n as int),
{
    lemma_integer_encoded(n);
}

} // verus!
