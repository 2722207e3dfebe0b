//! The crate's own model of a parsed JSON document.
//!
//! Parsing raw bytes is delegated to `serde_json`; everything that walks the
//! parsed tree afterwards works on [`JsonValue`], a value type of this crate,
//! and is verified.

use vstd::prelude::*;

verus! {

/// A parsed JSON document.
///
/// A number keeps the decimal text `serde_json` renders for it, together
/// with its value as an unsigned integer when it is one (the only numeric
/// shape the extraction templates can decode).
pub enum JsonValue {
    Null,
    Bool(bool),
    Number { text: String, uint: Option<u64> },
    Text(String),
    Array(Vec<JsonValue>),
    Object(Vec<(String, JsonValue)>),
}

#[verifier::external_type_specification]
#[verifier::external_body]
pub struct ExSerdeValue(serde_json::Value);

/// The document that parsing a byte sequence as JSON yields, or `None` when
/// the bytes are not a JSON document.  The result is a function of the bytes
/// alone; it is given no definition here, and everything proved about
/// resolution holds for whatever tree the parser produced.
pub uninterp spec fn json_doc_of(bytes: Seq<u8>) -> Option<JsonValue>;

/// Conversion used by `parse_json`: rebuilds a `serde_json::Value`,
/// variant by variant, as the crate's own tree.
#[verifier::external_body]
fn convert_value(v: &serde_json::Value) -> JsonValue {
    match v {
        serde_json::Value::Null => JsonValue::Null,
        serde_json::Value::Bool(b) => JsonValue::Bool(*b),
        serde_json::Value::Number(n) => JsonValue::Number { text: n.to_string(), uint: n.as_u64() },
        serde_json::Value::String(s) => JsonValue::Text(s.clone()),
        serde_json::Value::Array(a) => JsonValue::Array(a.iter().map(convert_value).collect()),
        serde_json::Value::Object(o) => JsonValue::Object(
            o.iter().map(|(k, x)| (k.clone(), convert_value(x))).collect(),
        ),
    }
}

/// Relies on `serde_json::from_slice::<serde_json::Value>`: parses a JSON
/// document from bytes, deterministically in the bytes alone.
#[verifier::external_body]
pub fn parse_json(input: &[u8]) -> (r: Option<JsonValue>)
    ensures
        r == json_doc_of(input@),
{
    match serde_json::from_slice::<serde_json::Value>(input) {
        Ok(v) => Some(convert_value(&v)),
        Err(_) => None,
    }
}

/// The value of the first entry of `entries` named `name`.
pub open spec fn spec_object_get(entries: Seq<(String, JsonValue)>, name: Seq<char>) -> Option<
    JsonValue,
>
    decreases entries.len(),
{
    if entries.len() == 0 {
        None
    } else if entries[0].0@ == name {
        Some(entries[0].1)
    } else {
        spec_object_get(entries.drop_first(), name)
    }
}

proof fn lemma_object_get_found(entries: Seq<(String, JsonValue)>, name: Seq<char>, i: int)
    requires
        0 <= i < entries.len(),
        entries[i].0@ == name,
        forall|k: int| 0 <= k < i ==> entries[k].0@ != name,
    ensures
        spec_object_get(entries, name) == Some(entries[i].1),
    decreases entries.len(),
{
    if i > 0 {
        lemma_object_get_found(entries.drop_first(), name, i - 1);
    }
}

proof fn lemma_object_get_missing(entries: Seq<(String, JsonValue)>, name: Seq<char>)
    requires
        forall|k: int| 0 <= k < entries.len() ==> entries[k].0@ != name,
    ensures
        spec_object_get(entries, name) == None::<JsonValue>,
    decreases entries.len(),
{
    if entries.len() > 0 {
        lemma_object_get_missing(entries.drop_first(), name);
    }
}

impl JsonValue {
    /// What looking one object key up in this value yields: the named entry
    /// of an object, and nothing on any other shape of value.
    pub open spec fn spec_get_key(self, name: Seq<char>) -> Option<JsonValue> {
        match self {
            JsonValue::Object(entries) => spec_object_get(entries@, name),
            _ => None,
        }
    }

    /// What looking one array index up in this value yields: element `i` of
    /// an array that is long enough, and nothing otherwise.
    pub open spec fn spec_get_index(self, i: int) -> Option<JsonValue> {
        match self {
            JsonValue::Array(elems) => if 0 <= i < elems@.len() {
                Some(elems@[i])
            } else {
                None
            },
            _ => None,
        }
    }

    /// Looks a key up in an object, as the first entry with that exact name.
    #[verifier::loop_isolation(false)]
    pub fn get_key<'a>(&'a self, name: &String) -> (r: Option<&'a JsonValue>)
        ensures
            match r {
                Some(v) => self.spec_get_key(name@) == Some(*v),
                None => self.spec_get_key(name@) is None,
            },
    {
        match self {
            JsonValue::Object(entries) => {
                let n = entries.len();
                let mut i: usize = 0;
                while i < n
                    invariant
                        n == entries@.len(),
                        i <= n,
                        forall|k: int| 0 <= k < i as int ==> entries@[k].0@ != name@,
                    decreases n - i,
                {
                    if entries[i].0 == *name {
                        proof {
                            lemma_object_get_found(entries@, name@, i as int);
                        }
                        return Some(&entries[i].1);
                    }
                    i += 1;
                }
                proof {
                    lemma_object_get_missing(entries@, name@);
                }
                None
            },
            _ => None,
        }
    }

    /// Looks an index up in an array.
    pub fn get_index<'a>(&'a self, i: usize) -> (r: Option<&'a JsonValue>)
        ensures
            match r {
                Some(v) => self.spec_get_index(i as int) == Some(*v),
                None => self.spec_get_index(i as int) is None,
            },
    {
        match self {
            JsonValue::Array(elems) => {
                if i < elems.len() {
                    Some(&elems[i])
                } else {
                    None
                }
            },
            _ => None,
        }
    }
}

} // verus!
