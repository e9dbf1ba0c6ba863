//! A model of JSON values.
//!
//! Inbound frames arrive as JSON text; the runtime's logic reads them as
//! values of [`JsonValue`]. The mathematical model of a value is [`Jv`],
//! built from `int`, `bool`, `Seq<char>` and sequences of fields.

use vstd::prelude::*;

use crate::strutil::str_eq;

verus! {

/// The mathematical model of a JSON value.
pub enum Jv {
    Null,
    Bool(bool),
    Int(int),
    Str(Seq<char>),
    Arr(Seq<Jv>),
    Obj(Seq<(Seq<char>, Jv)>),
}

/// A JSON value, restricted to what the OneBot wire protocol carries:
/// null, booleans, 64-bit integers, strings, arrays and objects.
///
/// An object keeps its fields as a list of key/value pairs in the order
/// the text gave them; lookup takes the first binding of a key.
#[derive(Debug)]
pub enum JsonValue {
    Null,
    Bool(bool),
    Int(i64),
    Str(String),
    Arr(Vec<JsonValue>),
    Obj(Vec<(String, JsonValue)>),
}

/// The model of a JSON value.
pub open spec fn jv_of(j: JsonValue) -> Jv
    decreases j,
{
    match j {
        JsonValue::Null => Jv::Null,
        JsonValue::Bool(b) => Jv::Bool(b),
        JsonValue::Int(i) => Jv::Int(i as int),
        JsonValue::Str(s) => Jv::Str(s@),
        JsonValue::Arr(v) => {
            proof {
                assert(decreases_to!(j => v));
                assert(decreases_to!(v => v@));
            }
            Jv::Arr(jv_of_seq(v@))
        },
        JsonValue::Obj(v) => {
            proof {
                assert(decreases_to!(j => v));
                assert(decreases_to!(v => v@));
            }
            Jv::Obj(jv_of_fields(v@))
        },
    }
}

/// The models of the elements of a JSON array.
pub open spec fn jv_of_seq(s: Seq<JsonValue>) -> Seq<Jv>
    decreases s,
{
    if s.len() == 0 {
        Seq::empty()
    } else {
        seq![jv_of(s[0])] + jv_of_seq(s.subrange(1, s.len() as int))
    }
}

/// The models of the fields of a JSON object.
pub open spec fn jv_of_fields(s: Seq<(String, JsonValue)>) -> Seq<(Seq<char>, Jv)>
    decreases s,
{
    if s.len() == 0 {
        Seq::empty()
    } else {
        seq![(s[0].0@, jv_of(s[0].1))] + jv_of_fields(s.subrange(1, s.len() as int))
    }
}

pub broadcast proof fn lemma_jv_of_seq(s: Seq<JsonValue>)
    ensures
        (#[trigger] jv_of_seq(s)).len() == s.len(),
        forall|i: int| 0 <= i < s.len() ==> jv_of_seq(s)[i] == jv_of(s[i]),
    decreases s.len(),
{
    if s.len() > 0 {
        lemma_jv_of_seq(s.subrange(1, s.len() as int));
    }
}

pub broadcast proof fn lemma_jv_of_fields(s: Seq<(String, JsonValue)>)
    ensures
        (#[trigger] jv_of_fields(s)).len() == s.len(),
        forall|i: int|
            0 <= i < s.len() ==> jv_of_fields(s)[i] == (s[i].0@, jv_of(s[i].1)),
    decreases s.len(),
{
    if s.len() > 0 {
        lemma_jv_of_fields(s.subrange(1, s.len() as int));
    }
}

impl View for JsonValue {
    type V = Jv;

    open spec fn view(&self) -> Jv {
        jv_of(*self)
    }
}

/// First binding of `key` among the fields of an object, if any.
pub open spec fn spec_lookup(fields: Seq<(Seq<char>, Jv)>, key: Seq<char>) -> Option<Jv>
    decreases fields.len(),
{
    if fields.len() == 0 {
        None
    } else if fields[0].0 == key {
        Some(fields[0].1)
    } else {
        spec_lookup(fields.subrange(1, fields.len() as int), key)
    }
}

/// What `get` returns: a field of an object, `None` on anything else.
pub open spec fn spec_get(j: Jv, key: Seq<char>) -> Option<Jv> {
    match j {
        Jv::Obj(fields) => spec_lookup(fields, key),
        _ => None,
    }
}

proof fn lemma_lookup_first_hit(fields: Seq<(Seq<char>, Jv)>, key: Seq<char>, i: int)
    requires
        0 <= i < fields.len(),
        forall|k: int| 0 <= k < i ==> fields[k].0 != key,
        fields[i].0 == key,
    ensures
        spec_lookup(fields, key) == Some(fields[i].1),
    decreases i,
{
    if i > 0 {
        let rest = fields.subrange(1, fields.len() as int);
        assert(forall|k: int| 0 <= k < i - 1 ==> rest[k] == fields[k + 1]);
        lemma_lookup_first_hit(rest, key, i - 1);
    }
}

proof fn lemma_lookup_absent(fields: Seq<(Seq<char>, Jv)>, key: Seq<char>)
    requires
        forall|k: int| 0 <= k < fields.len() ==> fields[k].0 != key,
    ensures
        spec_lookup(fields, key) is None,
    decreases fields.len(),
{
    if fields.len() > 0 {
        let rest = fields.subrange(1, fields.len() as int);
        assert(forall|k: int| 0 <= k < rest.len() ==> rest[k] == fields[k + 1]);
        lemma_lookup_absent(rest, key);
    }
}

impl JsonValue {
    /// Looks a key up among the fields, when the value is an object.
    pub fn get<'a>(&'a self, key: &str) -> (r: Option<&'a JsonValue>)
        ensures
            match r {
                Some(v) => spec_get(self@, key@) == Some(v@),
                None => spec_get(self@, key@) is None,
            },
    {
        broadcast use lemma_jv_of_fields;

        match self {
            JsonValue::Obj(fields) => {
                let ghost m = jv_of_fields(fields@);
                let n = fields.len();
                let mut i: usize = 0;
                while i < n
                    invariant
                        i <= n,
                        n == fields@.len(),
                        *self == JsonValue::Obj(*fields),
                        m == jv_of_fields(fields@),
                        m.len() == n,
                        forall|k: int| 0 <= k < n ==> m[k] == (fields@[k].0@, jv_of(
                            fields@[k].1,
                        )),
                        forall|k: int| 0 <= k < i ==> m[k].0 != key@,
                    decreases n - i,
                {
                    if str_eq(fields[i].0.as_str(), key) {
                        proof {
                            lemma_lookup_first_hit(m, key@, i as int);
                        }
                        return Some(&fields[i].1);
                    }
                    i += 1;
                }
                proof {
                    lemma_lookup_absent(m, key@);
                }
                None
            },
            _ => None,
        }
    }
}

/// The integer a value carries, when it is an integer.
pub open spec fn jv_int(j: Jv) -> Option<int> {
    match j {
        Jv::Int(n) => Some(n),
        _ => None,
    }
}

/// The characters a value carries, when it is a string.
pub open spec fn jv_str(j: Jv) -> Option<Seq<char>> {
    match j {
        Jv::Str(s) => Some(s),
        _ => None,
    }
}

/// The boolean a value carries, when it is a boolean.
pub open spec fn jv_bool(j: Jv) -> Option<bool> {
    match j {
        Jv::Bool(b) => Some(b),
        _ => None,
    }
}

impl JsonValue {
    /// The integer this value carries, when it is an integer.
    pub fn as_i64(&self) -> (r: Option<i64>)
        ensures
            match r {
                Some(v) => jv_int(self@) == Some(v as int),
                None => jv_int(self@) is None,
            },
    {
        match self {
            JsonValue::Int(n) => Some(*n),
            _ => None,
        }
    }

    /// The string this value carries, when it is a string.
    pub fn as_str<'a>(&'a self) -> (r: Option<&'a str>)
        ensures
            match r {
                Some(v) => jv_str(self@) == Some(v@),
                None => jv_str(self@) is None,
            },
    {
        match self {
            JsonValue::Str(s) => Some(s.as_str()),
            _ => None,
        }
    }

    /// The boolean this value carries, when it is a boolean.
    pub fn as_bool(&self) -> (r: Option<bool>)
        ensures
            match r {
                Some(v) => jv_bool(self@) == Some(v),
                None => jv_bool(self@) is None,
            },
    {
        match self {
            JsonValue::Bool(b) => Some(*b),
            _ => None,
        }
    }

    /// The elements this value carries, when it is an array.
    pub fn as_array<'a>(&'a self) -> (r: Option<&'a Vec<JsonValue>>)
        ensures
            match r {
                Some(v) => self@ == Jv::Arr(jv_of_seq(v@)),
                None => !(self@ is Arr),
            },
    {
        match self {
            JsonValue::Arr(v) => Some(v),
            _ => None,
        }
    }

    /// Whether this value is JSON null.
    pub fn is_null(&self) -> (r: bool)
        ensures
            r == (self@ is Null),
    {
        match self {
            JsonValue::Null => true,
            _ => false,
        }
    }

    /// A copy of this value, equal under the model.
    pub fn deep_clone(&self) -> (r: JsonValue)
        ensures
            r@ == self@,
        decreases *self,
    {
        broadcast use lemma_jv_of_seq, lemma_jv_of_fields;

        match self {
            JsonValue::Null => JsonValue::Null,
            JsonValue::Bool(b) => JsonValue::Bool(*b),
            JsonValue::Int(n) => JsonValue::Int(*n),
            JsonValue::Str(s) => JsonValue::Str(s.clone()),
            JsonValue::Arr(v) => {
                let n = v.len();
                let mut out: Vec<JsonValue> = Vec::new();
                let mut i: usize = 0;
                while i < n
                    invariant
                        i <= n,
                        n == v@.len(),
                        *self == JsonValue::Arr(*v),
                        out@.len() == i,
                        forall|k: int| 0 <= k < i ==> (#[trigger] out@[k])@ == v@[k]@,
                    decreases n - i,
                {
                    proof {
                        assert(decreases_to!(*self => self->Arr_0));
                        assert(decreases_to!(self->Arr_0 => v@));
                        assert(decreases_to!(v@ => v@[i as int]));
                    }
                    out.push(v[i].deep_clone());
                    i += 1;
                }
                proof {
                    assert(jv_of_seq(out@) =~= jv_of_seq(v@));
                }
                JsonValue::Arr(out)
            },
            JsonValue::Obj(fields) => {
                let n = fields.len();
                let mut out: Vec<(String, JsonValue)> = Vec::new();
                let mut i: usize = 0;
                while i < n
                    invariant
                        i <= n,
                        n == fields@.len(),
                        *self == JsonValue::Obj(*fields),
                        out@.len() == i,
                        forall|k: int|
                            0 <= k < i ==> (#[trigger] out@[k]).0@ == fields@[k].0@
                                && out@[k].1@ == fields@[k].1@,
                    decreases n - i,
                {
                    proof {
                        assert(decreases_to!(*self => self->Obj_0));
                        assert(decreases_to!(self->Obj_0 => fields@));
                        assert(decreases_to!(fields@ => fields@[i as int]));
                        assert(decreases_to!(fields@[i as int] => fields@[i as int].1));
                    }
                    out.push((fields[i].0.clone(), fields[i].1.deep_clone()));
                    i += 1;
                }
                proof {
                    assert(jv_of_fields(out@) =~= jv_of_fields(fields@));
                }
                JsonValue::Obj(out)
            },
        }
    }
}

/// Deep equality of two JSON values: true exactly when the models are
/// equal.
pub fn json_eq(a: &JsonValue, b: &JsonValue) -> (r: bool)
    ensures
        r == (a@ == b@),
    decreases *a,
{
    broadcast use lemma_jv_of_seq, lemma_jv_of_fields;

    match (a, b) {
        (JsonValue::Null, JsonValue::Null) => true,
        (JsonValue::Bool(x), JsonValue::Bool(y)) => x == y,
        (JsonValue::Int(x), JsonValue::Int(y)) => x == y,
        (JsonValue::Str(x), JsonValue::Str(y)) => str_eq(x.as_str(), y.as_str()),
        (JsonValue::Arr(x), JsonValue::Arr(y)) => {
            let n = x.len();
            if n != y.len() {
                proof {
                    lemma_jv_of_seq(x@);
                    lemma_jv_of_seq(y@);
                }
                return false;
            }
            let mut i: usize = 0;
            while i < n
                invariant
                    i <= n,
                    n == x@.len(),
                    n == y@.len(),
                    *a == JsonValue::Arr(*x),
                    *b == JsonValue::Arr(*y),
                    forall|k: int| 0 <= k < i ==> (#[trigger] x@[k])@ == y@[k]@,
                decreases n - i,
            {
                proof {
                    assert(decreases_to!(*a => a->Arr_0));
                    assert(decreases_to!(a->Arr_0 => x@));
                    assert(decreases_to!(x@ => x@[i as int]));
                }
                if !json_eq(&x[i], &y[i]) {
                    proof {
                        lemma_jv_of_seq(x@);
                        lemma_jv_of_seq(y@);
                        assert(jv_of_seq(x@)[i as int] != jv_of_seq(y@)[i as int]);
                    }
                    return false;
                }
                i += 1;
            }
            proof {
                assert(jv_of_seq(x@) =~= jv_of_seq(y@));
            }
            true
        },
        (JsonValue::Obj(x), JsonValue::Obj(y)) => {
            let n = x.len();
            if n != y.len() {
                proof {
                    lemma_jv_of_fields(x@);
                    lemma_jv_of_fields(y@);
                }
                return false;
            }
            let mut i: usize = 0;
            while i < n
                invariant
                    i <= n,
                    n == x@.len(),
                    n == y@.len(),
                    *a == JsonValue::Obj(*x),
                    *b == JsonValue::Obj(*y),
                    forall|k: int|
                        0 <= k < i ==> (#[trigger] x@[k]).0@ == y@[k].0@ && x@[k].1@
                            == y@[k].1@,
                decreases n - i,
            {
                if !str_eq(x[i].0.as_str(), y[i].0.as_str()) {
                    proof {
                        lemma_jv_of_fields(x@);
                        lemma_jv_of_fields(y@);
                        assert(jv_of_fields(x@)[i as int].0 != jv_of_fields(y@)[i as int].0);
                    }
                    return false;
                }
                proof {
                    assert(decreases_to!(*a => a->Obj_0));
                    assert(decreases_to!(a->Obj_0 => x@));
                    assert(decreases_to!(x@ => x@[i as int]));
                    assert(decreases_to!(x@[i as int] => x@[i as int].1));
                }
                if !json_eq(&x[i].1, &y[i].1) {
                    proof {
                        lemma_jv_of_fields(x@);
                        lemma_jv_of_fields(y@);
                        assert(jv_of_fields(x@)[i as int].1 != jv_of_fields(y@)[i as int].1);
                    }
                    return false;
                }
                i += 1;
            }
            proof {
                assert(jv_of_fields(x@) =~= jv_of_fields(y@));
            }
            true
        },
        _ => false,
    }
}

impl PartialEq for JsonValue {
    fn eq(&self, other: &JsonValue) -> (r: bool) {
        json_eq(self, other)
    }
}

impl vstd::std_specs::cmp::PartialEqSpecImpl for JsonValue {
    open spec fn obeys_eq_spec() -> bool {
        true
    }

    open spec fn eq_spec(&self, other: &JsonValue) -> bool {
        self@ == other@
    }
}

#[verifier::external_type_specification]
#[verifier::external_body]
pub struct ExSerdeValue(serde_json::Value);

/// The value that JSON text denotes, or `None` where the text is not
/// well-formed JSON. Parsing is a function of the text alone.
pub uninterp spec fn json_of_text(s: Seq<char>) -> Option<Jv>;

/// Relies on serde_json::from_str: whether a piece of text parses as
/// JSON, and to which value, depends on the text alone.
#[verifier::external_body]
pub fn parse_json(s: &str) -> (r: Option<JsonValue>)
    ensures
        match r {
            Some(v) => json_of_text(s@) == Some(v@),
            None => json_of_text(s@) is None,
        },
{
    match serde_json::from_str::<serde_json::Value>(s) {
        Ok(v) => Some(from_serde(&v)),
        Err(_) => None,
    }
}

/// Relies on the shape of serde_json::Value: carries a parsed tree over
/// into the crate's own JSON type, one node for one node. Numbers that
/// no i64 holds read as null; the wire protocol does not use them.
#[verifier::external_body]
fn from_serde(v: &serde_json::Value) -> JsonValue {
    match v {
        serde_json::Value::Null => JsonValue::Null,
        serde_json::Value::Bool(b) => JsonValue::Bool(*b),
        serde_json::Value::Number(n) => match n.as_i64() {
            Some(i) => JsonValue::Int(i),
            None => JsonValue::Null,
        },
        serde_json::Value::String(s) => JsonValue::Str(s.clone()),
        serde_json::Value::Array(a) => JsonValue::Arr(a.iter().map(from_serde).collect()),
        serde_json::Value::Object(o) => JsonValue::Obj(
            o.iter().map(|(k, x)| (k.clone(), from_serde(x))).collect(),
        ),
    }
}

} // verus!
