//! The JSON side of the generator: the extraction spec (a path of keys and
//! array indices plus a value kind), resolution of that path against a
//! concrete document, the sizing facts and parameter vector derived from the
//! same input, and the emission of the locate/extract template pair.

use vstd::prelude::*;
use vstd::utf8::encode_utf8;

use crate::circuit_config::CircomkitCircuitConfig;
use crate::error::ExtractError;
use crate::json_value::{json_doc_of, parse_json, JsonValue};
use crate::text::{append_dec, append_joined, spec_dec, spec_join};

verus! {

/// The kind of the value an extraction proves: the template family differs
/// (string contents are copied out; number digits are folded into an
/// integer).
#[derive(Debug, Clone, PartialEq, Eq, Structural)]
pub enum ValueType {
    String,
    Number,
}

/// One selector of an extraction path: an object key or an array index.
#[derive(Debug)]
pub enum Key {
    String(String),
    Num(usize),
}

impl Clone for Key {
    fn clone(&self) -> (r: Self)
        ensures
            r == *self,
    {
        match self {
            Key::String(s) => Key::String(s.clone()),
            Key::Num(n) => Key::Num(*n),
        }
    }
}

/// The JSON extraction spec: the path to walk, outermost selector first, and
/// the kind the terminal value must have.
#[derive(Debug)]
pub struct Lockfile {
    pub keys: Vec<Key>,
    pub value_type: ValueType,
}

/// What looking `key` up in `doc` yields.
pub open spec fn spec_lookup(doc: JsonValue, key: Key) -> Option<JsonValue> {
    match key {
        Key::String(name) => doc.spec_get_key(name@),
        Key::Num(i) => doc.spec_get_index(i as int),
    }
}

/// The reference resolution: looks each selector up in turn, and on failure
/// tells the position of the selector that did not resolve.
pub open spec fn spec_resolve(doc: JsonValue, keys: Seq<Key>) -> Result<JsonValue, int>
    decreases keys.len(),
{
    if keys.len() == 0 {
        Ok(doc)
    } else {
        match spec_lookup(doc, keys[0]) {
            Some(v) => match spec_resolve(v, keys.drop_first()) {
                Ok(r) => Ok(r),
                Err(j) => Err(j + 1),
            },
            None => Err(0),
        }
    }
}

/// The text a resolved terminal value contributes, checked against the
/// declared kind: the contents of a string, or the decimal text of an
/// unsigned integer number.
pub open spec fn spec_value_text(v: JsonValue, vt: ValueType) -> Result<Seq<char>, ExtractError> {
    match vt {
        ValueType::String => match v {
            JsonValue::Text(s) => Ok(s@),
            _ => Err(ExtractError::TypeMismatch),
        },
        ValueType::Number => match v {
            JsonValue::Number { text, uint } => if uint is Some {
                Ok(text@)
            } else {
                Err(ExtractError::TypeMismatch)
            },
            _ => Err(ExtractError::TypeMismatch),
        },
    }
}

/// What resolving a path against a parsed document yields: the terminal
/// value's text, or the error resolution fails with.
pub open spec fn spec_resolved_text(
    doc: JsonValue,
    keys: Seq<Key>,
    vt: ValueType,
) -> Result<Seq<char>, ExtractError> {
    match spec_resolve(doc, keys) {
        Ok(v) => spec_value_text(v, vt),
        Err(i) => Err(ExtractError::PathNotFound(keys[i])),
    }
}

impl Lockfile {
    /// Walks the path through an already-parsed document and returns the
    /// terminal value's text; fails with `PathNotFound` naming the first
    /// selector that does not resolve, and with `TypeMismatch` when the
    /// terminal value does not have the declared kind.
    #[verifier::loop_isolation(false)]
    pub fn resolve_value(&self, doc: &JsonValue) -> (r: Result<String, ExtractError>)
        ensures
            match r {
                Ok(s) => spec_resolved_text(*doc, self.keys@, self.value_type) == Ok::<
                    Seq<char>,
                    ExtractError,
                >(s@),
                Err(e) => spec_resolved_text(*doc, self.keys@, self.value_type) == Err::<
                    Seq<char>,
                    ExtractError,
                >(e),
            },
    {
        let n = self.keys.len();
        let mut current: &JsonValue = doc;
        let mut i: usize = 0;
        proof {
            assert(self.keys@.skip(0) =~= self.keys@);
        }
        while i < n
            invariant
                i <= n,
                spec_resolve(*doc, self.keys@) == match spec_resolve(
                    *current,
                    self.keys@.skip(i as int),
                ) {
                    Ok(v) => Ok::<JsonValue, int>(v),
                    Err(j) => Err::<JsonValue, int>(j + i as int),
                },
            decreases n - i,
        {
            let ghost rest = self.keys@.skip(i as int);
            proof {
                assert(rest[0] == self.keys@[i as int]);
                assert(rest.drop_first() =~= self.keys@.skip(i as int + 1));
            }
            let next = match &self.keys[i] {
                Key::String(name) => current.get_key(name),
                Key::Num(idx) => current.get_index(*idx),
            };
            match next {
                Some(v) => {
                    current = v;
                },
                None => {
                    return Err(ExtractError::PathNotFound(self.keys[i].clone()));
                },
            }
            i += 1;
        }
        proof {
            assert(self.keys@.skip(n as int) =~= Seq::<Key>::empty());
        }
        match &self.value_type {
            ValueType::String => match current {
                JsonValue::Text(s) => Ok(s.clone()),
                _ => Err(ExtractError::TypeMismatch),
            },
            ValueType::Number => match current {
                JsonValue::Number { text, uint } => {
                    if uint.is_some() {
                        Ok(text.clone())
                    } else {
                        Err(ExtractError::TypeMismatch)
                    }
                },
                _ => Err(ExtractError::TypeMismatch),
            },
        }
    }

    /// Parses the concrete input and resolves the path against it (the
    /// parse-fully-then-index evaluation).
    pub fn get_value(&self, input: &[u8]) -> (r: Result<String, ExtractError>)
        ensures
            match json_doc_of(input@) {
                None => r == Err::<String, ExtractError>(ExtractError::JsonParse),
                Some(doc) => match r {
                    Ok(s) => spec_resolved_text(doc, self.keys@, self.value_type) == Ok::<
                        Seq<char>,
                        ExtractError,
                    >(s@),
                    Err(e) => spec_resolved_text(doc, self.keys@, self.value_type) == Err::<
                        Seq<char>,
                        ExtractError,
                    >(e),
                },
            },
    {
        match parse_json(input) {
            Some(doc) => self.resolve_value(&doc),
            None => Err(ExtractError::JsonParse),
        }
    }
}

/// The byte length of a string, as `str::len` reports it.
pub open spec fn byte_len(s: Seq<char>) -> int {
    encode_utf8(s).len() as usize as int
}

/// Scan state of the structural analyzer after it has consumed positions
/// `1 ..= p` of the input: whether position `p` lies inside a string
/// literal, the current nesting depth, and the greatest depth seen so far.
///
/// The document root counts as depth `1`, and position `0` is never
/// consumed (the scan needs a preceding byte to recognize an escaped
/// quote).  A quote toggles the literal flag unless the byte before it is a
/// backslash; this check looks one byte back only, so a literal backslash
/// followed by a quote is treated as an escaped quote too — kept as the
/// established behaviour of the analyzer.  Closing braces are never
/// range-checked, so malformed nesting degrades to a (possibly negative)
/// running count instead of failing.
pub open spec fn msh_state(input: Seq<u8>, p: int) -> (bool, int, int)
    decreases p,
{
    if p <= 0 {
        (false, 1, 1)
    } else {
        let prev = msh_state(input, p - 1);
        let inside = prev.0;
        let cur = prev.1;
        let max = prev.2;
        let b = input[p];
        if b == 34 && input[p - 1] != 92 {
            (!inside, cur, max)
        } else if (b == 123 || b == 91) && !inside {
            (inside, cur + 1, if cur + 1 > max {
                cur + 1
            } else {
                max
            })
        } else if (b == 125 || b == 93) && !inside {
            (inside, cur - 1, max)
        } else {
            (inside, cur, max)
        }
    }
}

/// The greatest nesting depth the whole document reaches, counting the root
/// as depth `1`.
pub open spec fn spec_max_stack_height(input: Seq<u8>) -> int {
    msh_state(input, input.len() - 1).2
}

/// Returns the maximum stack height a parser of `input` needs: the greatest
/// simultaneous nesting of braces and brackets over the document, counting
/// the root as depth `1`, with brackets inside string literals ignored.
#[verifier::loop_isolation(false)]
pub fn json_max_stack_height(input: &[u8]) -> (r: usize)
    ensures
        r as int == spec_max_stack_height(input@),
{
    let n = input.len();
    let mut inside_string: bool = false;
    let mut cur: i128 = 1;
    let mut max: i128 = 1;
    let mut p: usize = 1;
    while p < n
        invariant
            1 <= p,
            n > 1 ==> p <= n,
            n <= 1 ==> p == 1,
            -(p as int) <= cur <= p as int,
            1 <= max <= p as int,
            (inside_string, cur as int, max as int) == msh_state(input@, p as int - 1),
        decreases n - p,
    {
        let b = input[p];
        if b == 34 && input[p - 1] != 92 {
            inside_string = !inside_string;
        } else if (b == 123 || b == 91) && !inside_string {
            cur = cur + 1;
            if cur > max {
                max = cur;
            }
        } else if (b == 125 || b == 93) && !inside_string {
            cur = cur - 1;
        }
        p += 1;
    }
    max as usize
}

proof fn lemma_msh_prefix(s1: Seq<u8>, s2: Seq<u8>, q: int)
    requires
        q < s1.len(),
        q < s2.len(),
        forall|i: int| 0 <= i <= q ==> s1[i] == s2[i],
    ensures
        msh_state(s2, q) == msh_state(s1, q),
    decreases q,
{
    if q > 0 {
        lemma_msh_prefix(s1, s2, q - 1);
    }
}

/// One step of the correspondence between the original scan and the scan of
/// the text with a whitespace byte inserted at `p`: position `q + 1` of the
/// longer text reaches the state position `q` of the original reaches.
proof fn lemma_msh_insert_step(s1: Seq<u8>, s2: Seq<u8>, p: int, w: u8, q: int)
    requires
        1 <= p <= s1.len(),
        s2.len() == s1.len() + 1,
        forall|i: int| 0 <= i < p ==> s1[i] == s2[i],
        s2[p] == w,
        forall|i: int| p <= i < s1.len() ==> s1[i] == s2[i + 1],
        w == 32 || (9 <= w <= 13),
        p < s1.len() ==> !(s1[p] == 34 && s1[p - 1] == 92),
        p <= q < s1.len(),
    ensures
        msh_state(s2, q + 1) == msh_state(s1, q),
    decreases q,
{
    if q == p {
        lemma_msh_prefix(s1, s2, p - 1);
        assert(msh_state(s2, p) == msh_state(s2, p - 1));
    } else {
        lemma_msh_insert_step(s1, s2, p, w, q - 1);
        assert(s2[q + 1] == s1[q]);
        assert(s2[q] == s1[q - 1]);
    }
}

/// The structural fact is invariant to whitespace insertion: inserting a
/// whitespace byte anywhere after position `0` leaves the computed maximum
/// stack height unchanged, as long as the insertion does not split a
/// backslash/quote pair (which would change which quote counts as escaped;
/// in particular any insertion point outside a string literal that does not
/// sit between an escape and its quote qualifies).
pub proof fn lemma_max_stack_height_whitespace_invariant(s1: Seq<u8>, p: int, w: u8)
    requires
        1 <= p <= s1.len(),
        w == 32 || (9 <= w <= 13),
        p < s1.len() ==> !(s1[p] == 34 && s1[p - 1] == 92),
    ensures
        spec_max_stack_height(s1.insert(p, w)) == spec_max_stack_height(s1),
{
    let s2 = s1.insert(p, w);
    assert(s2.len() == s1.len() + 1);
    assert forall|i: int| 0 <= i < p implies s1[i] == s2[i] by {}
    assert(s2[p] == w);
    assert forall|i: int| p <= i < s1.len() implies s1[i] == s2[i + 1] by {}
    if p == s1.len() {
        lemma_msh_prefix(s1, s2, p - 1);
        assert(msh_state(s2, p) == msh_state(s2, p - 1));
    } else {
        lemma_msh_insert_step(s1, s2, p, w, s1.len() - 1);
    }
}

/// The mirror image: removing a whitespace byte (at a position after `0`)
/// leaves the computed maximum stack height unchanged, as long as the bytes
/// around it are not a backslash/quote pair that the removal would join.
pub proof fn lemma_max_stack_height_whitespace_removal(s1: Seq<u8>, p: int)
    requires
        1 <= p < s1.len(),
        s1[p] == 32 || (9 <= s1[p] <= 13),
        p + 1 < s1.len() ==> !(s1[p + 1] == 34 && s1[p - 1] == 92),
    ensures
        spec_max_stack_height(s1.remove(p)) == spec_max_stack_height(s1),
{
    let shorter = s1.remove(p);
    lemma_max_stack_height_whitespace_invariant(shorter, p, s1[p]);
    assert(shorter.insert(p, s1[p]) =~= s1);
}

/// The names of the two parameters a selector at (one-based) position `i`
/// contributes: the key length or the locked index, and the nesting depth.
pub open spec fn spec_selector_names(keys: Seq<Key>, i: int) -> Seq<Seq<char>>
    decreases i,
{
    if i <= 0 {
        Seq::empty()
    } else {
        spec_selector_names(keys, i - 1) + (match keys[i - 1] {
            Key::String(_) => seq!["keyLen"@ + spec_dec(i), "depth"@ + spec_dec(i)],
            Key::Num(_) => seq!["index"@ + spec_dec(i), "depth"@ + spec_dec(i)],
        })
    }
}

/// The full parameter-name list of the generated JSON templates.
pub open spec fn spec_params(keys: Seq<Key>) -> Seq<Seq<char>> {
    seq!["DATA_BYTES"@, "MAX_STACK_HEIGHT"@] + spec_selector_names(keys, keys.len() as int)
        + seq!["maxValueLen"@]
}

pub proof fn lemma_selector_names_len(keys: Seq<Key>, i: int)
    requires
        0 <= i,
    ensures
        spec_selector_names(keys, i).len() == 2 * i,
    decreases i,
{
    if i > 0 {
        lemma_selector_names_len(keys, i - 1);
    }
}

/// The names of the input signals of the generated JSON templates: the data
/// array, then one key signal per key selector.
pub open spec fn spec_input_key_names(keys: Seq<Key>, i: int) -> Seq<Seq<char>>
    decreases i,
{
    if i <= 0 {
        Seq::empty()
    } else {
        spec_input_key_names(keys, i - 1) + (match keys[i - 1] {
            Key::String(_) => seq!["key"@ + spec_dec(i)],
            Key::Num(_) => Seq::empty(),
        })
    }
}

/// The full input-signal-name list of the generated JSON templates.
pub open spec fn spec_inputs(keys: Seq<Key>) -> Seq<Seq<char>> {
    seq!["data"@] + spec_input_key_names(keys, keys.len() as int)
}

/// The witness slots the key selectors fill: slot `key<i>` holds the bytes
/// of the `i`-th selector when it is a key (index selectors fill no slot).
pub open spec fn spec_keys_as_bytes(keys: Seq<Key>, i: int) -> Seq<(Seq<char>, Seq<u8>)>
    decreases i,
{
    if i <= 0 {
        Seq::empty()
    } else {
        spec_keys_as_bytes(keys, i - 1) + (match keys[i - 1] {
            Key::String(s) => seq![("key"@ + spec_dec(i), encode_utf8(s@))],
            Key::Num(_) => Seq::empty(),
        })
    }
}

/// The two numeric parameters a selector contributes: its key's byte length
/// (or the locked index), and its nesting depth, in path order.
pub open spec fn spec_selector_params(keys: Seq<Key>, i: int) -> Seq<int>
    decreases i,
{
    if i <= 0 {
        Seq::empty()
    } else {
        spec_selector_params(keys, i - 1) + (match keys[i - 1] {
            Key::String(s) => seq![byte_len(s@), i - 1],
            Key::Num(n) => seq![n as int, i - 1],
        })
    }
}

pub proof fn lemma_selector_params_len(keys: Seq<Key>, i: int)
    requires
        0 <= i,
    ensures
        spec_selector_params(keys, i).len() == 2 * i,
    decreases i,
{
    if i > 0 {
        lemma_selector_params_len(keys, i - 1);
    }
}

/// The parameter vector the generated JSON template is instantiated with
/// for one concrete input: data length, maximum stack height, the two
/// parameters of each selector in path order, and the terminal value's byte
/// length; or the error when the input does not parse or the path does not
/// resolve to a value of the declared kind.
pub open spec fn spec_populate_params(keys: Seq<Key>, vt: ValueType, input: Seq<u8>) -> Result<
    Seq<int>,
    ExtractError,
> {
    match json_doc_of(input) {
        None => Err(ExtractError::JsonParse),
        Some(doc) => match spec_resolved_text(doc, keys, vt) {
            Ok(text) => Ok(
                seq![input.len() as int, spec_max_stack_height(input)] + spec_selector_params(
                    keys,
                    keys.len() as int,
                ) + seq![byte_len(text)],
            ),
            Err(e) => Err(e),
        },
    }
}

/// Determinism of the parameter derivation: two parameter vectors derived
/// from the same extraction spec and the same concrete input are identical,
/// so a registry record can be rebuilt at any time without diverging from
/// the template it was generated with.
pub proof fn lemma_populate_params_deterministic(
    keys: Seq<Key>,
    vt: ValueType,
    input: Seq<u8>,
    r1: Seq<int>,
    r2: Seq<int>,
)
    requires
        spec_populate_params(keys, vt, input) == Ok::<Seq<int>, ExtractError>(r1),
        spec_populate_params(keys, vt, input) == Ok::<Seq<int>, ExtractError>(r2),
    ensures
        r1 == r2,
{
}

/// The central arity invariant of the JSON side: whenever a parameter
/// vector is derived for an input, it has exactly one entry per parameter
/// name of the generated templates — the template and its instantiation
/// cannot drift apart.
pub proof fn lemma_json_params_arity(keys: Seq<Key>, vt: ValueType, input: Seq<u8>)
    ensures
        match spec_populate_params(keys, vt, input) {
            Ok(v) => v.len() == spec_params(keys).len(),
            Err(_) => true,
        },
{
    lemma_selector_params_len(keys, keys.len() as int);
    lemma_selector_names_len(keys, keys.len() as int);
}

/// The slot-naming invariant of the witness builder: the slots the key bytes
/// fill carry exactly the names of the key input signals the generated
/// templates declare, in the same order.
pub proof fn lemma_witness_slots_match_inputs(keys: Seq<Key>, i: int)
    requires
        0 <= i,
    ensures
        spec_keys_as_bytes(keys, i).map_values(|p: (Seq<char>, Seq<u8>)| p.0)
            == spec_input_key_names(keys, i),
    decreases i,
{
    let f = |p: (Seq<char>, Seq<u8>)| p.0;
    if i > 0 {
        lemma_witness_slots_match_inputs(keys, i - 1);
        match keys[i - 1] {
            Key::String(s) => {
                assert(spec_keys_as_bytes(keys, i).map_values(f) =~= spec_keys_as_bytes(
                    keys,
                    i - 1,
                ).map_values(f) + seq!["key"@ + spec_dec(i)]);
            },
            Key::Num(_) => {
                assert(spec_keys_as_bytes(keys, i).map_values(f) =~= spec_keys_as_bytes(
                    keys,
                    i - 1,
                ).map_values(f));
                assert(spec_input_key_names(keys, i) =~= spec_input_key_names(keys, i - 1));
            },
        }
    } else {
        assert(spec_keys_as_bytes(keys, i).map_values(f) =~= spec_input_key_names(keys, i));
    }
}

/// The name of the extraction template a value kind selects.
pub open spec fn spec_template_name(vt: ValueType) -> Seq<char> {
    match vt {
        ValueType::String => "ExtractStringValue"@,
        ValueType::Number => "ExtractNumValue"@,
    }
}

impl Lockfile {
    /// The parameter names of the templates this spec generates:
    /// `DATA_BYTES`, `MAX_STACK_HEIGHT`, two names per selector in path
    /// order, then `maxValueLen`.
    #[verifier::loop_isolation(false)]
    pub fn params(&self) -> (r: Vec<String>)
        ensures
            r@.map_values(|s: String| s@) == spec_params(self.keys@),
            r@.len() == 3 + 2 * self.keys@.len(),
    {
        let ghost f = |s: String| s@;
        let mut r: Vec<String> = Vec::new();
        r.push(String::from_str("DATA_BYTES"));
        r.push(String::from_str("MAX_STACK_HEIGHT"));
        assert(r@.map_values(f) =~= seq!["DATA_BYTES"@, "MAX_STACK_HEIGHT"@]
            + spec_selector_names(self.keys@, 0));
        let n = self.keys.len();
        let mut i: usize = 0;
        while i < n
            invariant
                i <= n,
                r@.map_values(f) == seq!["DATA_BYTES"@, "MAX_STACK_HEIGHT"@] + spec_selector_names(
                    self.keys@,
                    i as int,
                ),
            decreases n - i,
        {
            let ghost pre = r@.map_values(f);
            let mut first = match &self.keys[i] {
                Key::String(_) => String::from_str("keyLen"),
                Key::Num(_) => String::from_str("index"),
            };
            append_dec(&mut first, i + 1);
            let mut second = String::from_str("depth");
            append_dec(&mut second, i + 1);
            let ghost fv = first@;
            let ghost sv = second@;
            r.push(first);
            r.push(second);
            assert(r@.map_values(f) =~= pre + seq![fv, sv]);
            assert(pre + seq![fv, sv] =~= seq!["DATA_BYTES"@, "MAX_STACK_HEIGHT"@]
                + spec_selector_names(self.keys@, i as int + 1));
            i += 1;
        }
        r.push(String::from_str("maxValueLen"));
        proof {
            lemma_selector_names_len(self.keys@, n as int);
            assert(r@.map_values(f) =~= spec_params(self.keys@));
        }
        r
    }

    /// The input-signal names of the templates this spec generates: `data`,
    /// then `key<i>` for each key selector in path order.
    #[verifier::loop_isolation(false)]
    pub fn inputs(&self) -> (r: Vec<String>)
        ensures
            r@.map_values(|s: String| s@) == spec_inputs(self.keys@),
    {
        let ghost f = |s: String| s@;
        let mut r: Vec<String> = Vec::new();
        r.push(String::from_str("data"));
        assert(r@.map_values(f) =~= seq!["data"@] + spec_input_key_names(self.keys@, 0));
        let n = self.keys.len();
        let mut i: usize = 0;
        while i < n
            invariant
                i <= n,
                r@.map_values(f) == seq!["data"@] + spec_input_key_names(self.keys@, i as int),
            decreases n - i,
        {
            let ghost pre = r@.map_values(f);
            match &self.keys[i] {
                Key::String(_) => {
                    let mut name = String::from_str("key");
                    append_dec(&mut name, i + 1);
                    let ghost nv = name@;
                    r.push(name);
                    assert(r@.map_values(f) =~= pre + seq![nv]);
                },
                Key::Num(_) => {
                    assert(pre + Seq::<Seq<char>>::empty() =~= pre);
                },
            }
            assert(r@.map_values(f) =~= seq!["data"@] + spec_input_key_names(
                self.keys@,
                i as int + 1,
            ));
            i += 1;
        }
        r
    }

    /// The witness slots of this spec's key selectors: slot name `key<i>`
    /// to the key's bytes, in path order.
    #[verifier::loop_isolation(false)]
    pub fn keys_as_bytes(&self) -> (r: Vec<(String, Vec<u8>)>)
        ensures
            r@.map_values(|p: (String, Vec<u8>)| (p.0@, p.1@)) == spec_keys_as_bytes(
                self.keys@,
                self.keys@.len() as int,
            ),
    {
        let ghost f = |p: (String, Vec<u8>)| (p.0@, p.1@);
        let mut r: Vec<(String, Vec<u8>)> = Vec::new();
        assert(r@.map_values(f) =~= spec_keys_as_bytes(self.keys@, 0));
        let n = self.keys.len();
        let mut i: usize = 0;
        while i < n
            invariant
                i <= n,
                r@.map_values(f) == spec_keys_as_bytes(self.keys@, i as int),
            decreases n - i,
        {
            let ghost pre = r@.map_values(f);
            match &self.keys[i] {
                Key::String(s) => {
                    let mut name = String::from_str("key");
                    append_dec(&mut name, i + 1);
                    let bytes = s.as_str().as_bytes_vec();
                    let ghost nv = name@;
                    let ghost bv = bytes@;
                    r.push((name, bytes));
                    assert(r@.map_values(f) =~= pre + seq![(nv, bv)]);
                },
                Key::Num(_) => {
                    assert(pre + Seq::<(Seq<char>, Seq<u8>)>::empty() =~= pre);
                },
            }
            assert(r@.map_values(f) =~= spec_keys_as_bytes(self.keys@, i as int + 1));
            i += 1;
        }
        r
    }

    /// Computes the parameter vector for one concrete input, in the exact
    /// order `params` names the parameters: data length, maximum stack
    /// height, two numbers per selector, terminal value byte length.
    #[verifier::loop_isolation(false)]
    pub fn populate_params(&self, input: &[u8]) -> (r: Result<Vec<usize>, ExtractError>)
        ensures
            match r {
                Ok(v) => spec_populate_params(self.keys@, self.value_type, input@) == Ok::<
                    Seq<int>,
                    ExtractError,
                >(v@.map_values(|x: usize| x as int)),
                Err(e) => spec_populate_params(self.keys@, self.value_type, input@) == Err::<
                    Seq<int>,
                    ExtractError,
                >(e),
            },
            r is Ok ==> r->Ok_0@.len() == 3 + 2 * self.keys@.len(),
    {
        let value = match self.get_value(input) {
            Ok(v) => v,
            Err(e) => {
                return Err(e);
            },
        };
        let ghost f = |x: usize| x as int;
        let mut params: Vec<usize> = Vec::new();
        params.push(input.len());
        params.push(json_max_stack_height(input));
        assert(params@.map_values(f) =~= seq![input@.len() as int, spec_max_stack_height(input@)]
            + spec_selector_params(self.keys@, 0));
        let n = self.keys.len();
        let mut i: usize = 0;
        while i < n
            invariant
                i <= n,
                params@.map_values(f) == seq![
                    input@.len() as int,
                    spec_max_stack_height(input@),
                ] + spec_selector_params(self.keys@, i as int),
            decreases n - i,
        {
            let ghost pre = params@.map_values(f);
            let ghost piece: Seq<int> = match self.keys@[i as int] {
                Key::String(s) => seq![byte_len(s@), i as int],
                Key::Num(idx) => seq![idx as int, i as int],
            };
            match &self.keys[i] {
                Key::String(s) => {
                    params.push(s.as_str().len());
                },
                Key::Num(idx) => {
                    params.push(*idx);
                },
            }
            params.push(i);
            proof {
                assert(params@.map_values(f) =~= pre + piece);
                assert(spec_selector_params(self.keys@, i as int + 1) == spec_selector_params(
                    self.keys@,
                    i as int,
                ) + piece);
                assert(pre + piece =~= seq![input@.len() as int, spec_max_stack_height(input@)]
                    + spec_selector_params(self.keys@, i as int + 1));
            }
            i += 1;
        }
        params.push(value.as_str().len());
        proof {
            lemma_selector_params_len(self.keys@, n as int);
            assert(params@.map_values(f) =~= seq![
                input@.len() as int,
                spec_max_stack_height(input@),
            ] + spec_selector_params(self.keys@, n as int) + seq![byte_len(value@)]);
        }
        Ok(params)
    }

    /// Builds the registry record for this spec and input: the template
    /// name the value kind selects, the file path under `main/`, and the
    /// parameter vector of `populate_params`.
    pub fn build_circuit_config(&self, input: &[u8], output_filename: &str) -> (r: Result<
        CircomkitCircuitConfig,
        ExtractError,
    >)
        ensures
            match r {
                Ok(c) => {
                    &&& spec_populate_params(self.keys@, self.value_type, input@) == Ok::<
                        Seq<int>,
                        ExtractError,
                    >(c.params@.map_values(|x: usize| x as int))
                    &&& c.file@ == "main/"@ + output_filename@
                    &&& c.template@ == spec_template_name(self.value_type)
                },
                Err(e) => spec_populate_params(self.keys@, self.value_type, input@) == Err::<
                    Seq<int>,
                    ExtractError,
                >(e),
            },
    {
        let params = match self.populate_params(input) {
            Ok(p) => p,
            Err(e) => {
                return Err(e);
            },
        };
        let template = match &self.value_type {
            ValueType::String => String::from_str("ExtractStringValue"),
            ValueType::Number => String::from_str("ExtractNumValue"),
        };
        let mut file = String::from_str("main/");
        file.append(output_filename);
        Ok(CircomkitCircuitConfig { file, template, params })
    }
}

/// The selector one element of the spec document's `keys` array denotes: a
/// string is a key, an unsigned integer that fits `usize` is an index.
pub open spec fn spec_key_of(v: JsonValue) -> Option<Key> {
    match v {
        JsonValue::Text(s) => Some(Key::String(s)),
        JsonValue::Number { text, uint } => match uint {
            Some(u) => if u <= usize::MAX as u64 {
                Some(Key::Num(u as usize))
            } else {
                None
            },
            None => None,
        },
        _ => None,
    }
}

/// The selector path a `keys` array denotes, when every element is a valid
/// selector.
pub open spec fn spec_keys_of(elems: Seq<JsonValue>) -> Option<Seq<Key>>
    decreases elems.len(),
{
    if elems.len() == 0 {
        Some(Seq::empty())
    } else {
        match spec_key_of(elems[0]) {
            Some(k) => match spec_keys_of(elems.drop_first()) {
                Some(rest) => Some(seq![k] + rest),
                None => None,
            },
            None => None,
        }
    }
}

/// The value kind a `value_type` field denotes.
pub open spec fn spec_value_type_of(v: JsonValue) -> Option<ValueType> {
    match v {
        JsonValue::Text(s) => if s@ == "string"@ {
            Some(ValueType::String)
        } else if s@ == "number"@ {
            Some(ValueType::Number)
        } else {
            None
        },
        _ => None,
    }
}

/// The extraction spec a parsed lockfile document denotes: its `keys` array
/// as a selector path, its `value_type` field as a value kind.
pub open spec fn spec_lockfile_of(doc: JsonValue) -> Option<(Seq<Key>, ValueType)> {
    match doc.spec_get_key("keys"@) {
        Some(keys_value) => match keys_value {
            JsonValue::Array(elems) => match spec_keys_of(elems@) {
                Some(keys) => match doc.spec_get_key("value_type"@) {
                    Some(vt_value) => match spec_value_type_of(vt_value) {
                        Some(vt) => Some((keys, vt)),
                        None => None,
                    },
                    None => None,
                },
                None => None,
            },
            _ => None,
        },
        None => None,
    }
}

impl Lockfile {
    /// Reads the extraction spec out of a parsed lockfile document.
    #[verifier::loop_isolation(false)]
    pub fn from_json(doc: &JsonValue) -> (r: Result<Lockfile, ExtractError>)
        ensures
            match r {
                Ok(lf) => spec_lockfile_of(*doc) == Some((lf.keys@, lf.value_type)),
                Err(e) => spec_lockfile_of(*doc) is None && e == ExtractError::SpecParse,
            },
    {
        let keys_value = match doc.get_key(&String::from_str("keys")) {
            Some(v) => v,
            None => {
                return Err(ExtractError::SpecParse);
            },
        };
        let elems = match keys_value {
            JsonValue::Array(elems) => elems,
            _ => {
                return Err(ExtractError::SpecParse);
            },
        };
        let mut keys: Vec<Key> = Vec::new();
        let n = elems.len();
        let mut i: usize = 0;
        proof {
            assert(elems@.skip(0) =~= elems@);
        }
        while i < n
            invariant
                i <= n,
                spec_keys_of(elems@) == match spec_keys_of(elems@.skip(i as int)) {
                    Some(rest) => Some(keys@ + rest),
                    None => None::<Seq<Key>>,
                },
            decreases n - i,
        {
            let ghost rest = elems@.skip(i as int);
            let ghost pre = keys@;
            proof {
                assert(rest[0] == elems@[i as int]);
                assert(rest.drop_first() =~= elems@.skip(i as int + 1));
            }
            match &elems[i] {
                JsonValue::Text(s) => {
                    keys.push(Key::String(s.clone()));
                    proof {
                        assert(keys@ =~= pre + seq![Key::String(*s)]);
                    }
                },
                JsonValue::Number { text: _, uint } => {
                    match uint {
                        Some(u) => {
                            if *u <= usize::MAX as u64 {
                                keys.push(Key::Num(*u as usize));
                                proof {
                                    assert(keys@ =~= pre + seq![Key::Num(*u as usize)]);
                                }
                            } else {
                                return Err(ExtractError::SpecParse);
                            }
                        },
                        None => {
                            return Err(ExtractError::SpecParse);
                        },
                    }
                },
                _ => {
                    return Err(ExtractError::SpecParse);
                },
            }
            proof {
                if spec_keys_of(elems@.skip(i as int + 1)) is Some {
                    let tail = spec_keys_of(elems@.skip(i as int + 1))->Some_0;
                    assert(keys@ + tail =~= pre + (seq![
                        spec_key_of(elems@[i as int])->Some_0,
                    ] + tail));
                }
            }
            i += 1;
        }
        proof {
            assert(elems@.skip(n as int) =~= Seq::<JsonValue>::empty());
            assert(keys@ + Seq::<Key>::empty() =~= keys@);
        }
        let vt_value = match doc.get_key(&String::from_str("value_type")) {
            Some(v) => v,
            None => {
                return Err(ExtractError::SpecParse);
            },
        };
        let value_type = match vt_value {
            JsonValue::Text(s) => {
                if *s == String::from_str("string") {
                    ValueType::String
                } else if *s == String::from_str("number") {
                    ValueType::Number
                } else {
                    return Err(ExtractError::SpecParse);
                }
            },
            _ => {
                return Err(ExtractError::SpecParse);
            },
        };
        Ok(Lockfile { keys, value_type })
    }

    /// Parses lockfile bytes and reads the extraction spec out of them.
    pub fn from_bytes(input: &[u8]) -> (r: Result<Lockfile, ExtractError>)
        ensures
            match r {
                Ok(lf) => json_doc_of(input@) is Some && spec_lockfile_of(
                    json_doc_of(input@)->Some_0,
                ) == Some((lf.keys@, lf.value_type)),
                Err(e) => e == ExtractError::SpecParse && (json_doc_of(input@) is Some
                    ==> spec_lockfile_of(json_doc_of(input@)->Some_0) is None),
            },
    {
        match parse_json(input) {
            Some(doc) => Lockfile::from_json(&doc),
            None => Err(ExtractError::SpecParse),
        }
    }
}

/// How many of the first `i` selectors are keys (the selectors that have a
/// latch/propagation stage in the template).
pub open spec fn count_string_keys(keys: Seq<Key>, i: int) -> int
    decreases i,
{
    if i <= 0 {
        0
    } else {
        count_string_keys(keys, i - 1) + (match keys[i - 1] {
            Key::String(_) => 1int,
            Key::Num(_) => 0int,
        })
    }
}

pub proof fn lemma_count_string_keys_bound(keys: Seq<Key>, i: int)
    requires
        0 <= i,
    ensures
        0 <= count_string_keys(keys, i) <= i,
    decreases i,
{
    if i > 0 {
        lemma_count_string_keys_bound(keys, i - 1);
    }
}

/// Counts the key selectors of the path.
#[verifier::loop_isolation(false)]
pub fn count_keys(keys: &Vec<Key>) -> (r: usize)
    ensures
        r as int == count_string_keys(keys@, keys@.len() as int),
{
    let n = keys.len();
    let mut r: usize = 0;
    let mut i: usize = 0;
    while i < n
        invariant
            i <= n,
            r as int == count_string_keys(keys@, i as int),
            r <= i,
        decreases n - i,
    {
        match &keys[i] {
            Key::String(_) => {
                r += 1;
            },
            Key::Num(_) => {},
        }
        i += 1;
    }
    r
}

/// The comment-block dump of the parsed spec that leads the generated file:
/// one line per selector, then the value kind.
pub open spec fn spec_dump_keys(keys: Seq<Key>, i: int) -> Seq<char>
    decreases i,
{
    if i <= 0 {
        Seq::empty()
    } else {
        spec_dump_keys(keys, i - 1) + (match keys[i - 1] {
            Key::String(s) => "        \""@ + s@ + "\",\n"@,
            Key::Num(n) => "        "@ + spec_dec(n as int) + ",\n"@,
        })
    }
}

pub open spec fn spec_dump(keys: Seq<Key>, vt: ValueType) -> Seq<char> {
    "Lockfile {\n    keys: [\n"@ + spec_dump_keys(keys, keys.len() as int)
        + "    ],\n    value_type: "@ + (match vt {
        ValueType::String => "String"@,
        ValueType::Number => "Number"@,
    }) + ",\n}"@
}

/// Appends the comment-block dump of the spec.
#[verifier::loop_isolation(false)]
fn emit_dump(buf: &mut String, lockfile: &Lockfile)
    ensures
        final(buf)@ == old(buf)@ + spec_dump(lockfile.keys@, lockfile.value_type),
{
    let keys = &lockfile.keys;
    buf.append("Lockfile {\n    keys: [\n");
    let n = keys.len();
    let mut i: usize = 0;
    while i < n
        invariant
            i <= n,
            buf@ == old(buf)@ + "Lockfile {\n    keys: [\n"@ + spec_dump_keys(keys@, i as int),
        decreases n - i,
    {
        let ghost pre = buf@;
        match &keys[i] {
            Key::String(s) => {
                buf.append("        \"");
                buf.append(s.as_str());
                buf.append("\",\n");
                assert(buf@ =~= pre + ("        \""@ + s@ + "\",\n"@));
            },
            Key::Num(idx) => {
                buf.append("        ");
                append_dec(buf, *idx);
                buf.append(",\n");
                assert(buf@ =~= pre + ("        "@ + spec_dec(*idx as int) + ",\n"@));
            },
        }
        i += 1;
    }
    buf.append("    ],\n    value_type: ");
    match &lockfile.value_type {
        ValueType::String => buf.append("String"),
        ValueType::Number => buf.append("Number"),
    }
    buf.append(",\n}");
    assert(buf@ =~= old(buf)@ + spec_dump(lockfile.keys@, lockfile.value_type));
}

/// The `signal input key<i>[keyLen<i>];` declarations, one per key selector.
pub open spec fn spec_key_inputs(keys: Seq<Key>, i: int) -> Seq<char>
    decreases i,
{
    if i <= 0 {
        Seq::empty()
    } else {
        spec_key_inputs(keys, i - 1) + (match keys[i - 1] {
            Key::String(_) => "    signal input key"@ + spec_dec(i) + "[keyLen"@ + spec_dec(i)
                + "];\n"@,
            Key::Num(_) => Seq::empty(),
        })
    }
}

/// Appends the key input-signal declarations.
#[verifier::loop_isolation(false)]
pub(crate) fn emit_key_inputs(buf: &mut String, keys: &Vec<Key>)
    ensures
        final(buf)@ == old(buf)@ + spec_key_inputs(keys@, keys@.len() as int),
{
    let n = keys.len();
    let mut i: usize = 0;
    while i < n
        invariant
            i <= n,
            buf@ == old(buf)@ + spec_key_inputs(keys@, i as int),
        decreases n - i,
    {
        let ghost pre = buf@;
        match &keys[i] {
            Key::String(_) => {
                buf.append("    signal input key");
                append_dec(buf, i + 1);
                buf.append("[keyLen");
                append_dec(buf, i + 1);
                buf.append("];\n");
                assert(buf@ =~= pre + ("    signal input key"@ + spec_dec(i as int + 1)
                    + "[keyLen"@ + spec_dec(i as int + 1) + "];\n"@));
            },
            Key::Num(_) => {
                assert(pre + Seq::<char>::empty() =~= pre);
            },
        }
        i += 1;
    }
}

/// The per-selector scope-flag signal declarations of the locate template.
pub open spec fn spec_parse_signal_decls(keys: Seq<Key>, i: int) -> Seq<char>
    decreases i,
{
    if i <= 0 {
        Seq::empty()
    } else {
        spec_parse_signal_decls(keys, i - 1) + (match keys[i - 1] {
            Key::String(_) => "    signal parsing_object"@ + spec_dec(i) + "_value[DATA_BYTES];\n"@,
            Key::Num(_) => "    signal parsing_array"@ + spec_dec(i) + "[DATA_BYTES];\n"@,
        })
    }
}

#[verifier::loop_isolation(false)]
fn emit_parse_signal_decls(buf: &mut String, keys: &Vec<Key>)
    ensures
        final(buf)@ == old(buf)@ + spec_parse_signal_decls(keys@, keys@.len() as int),
{
    let n = keys.len();
    let mut i: usize = 0;
    while i < n
        invariant
            i <= n,
            buf@ == old(buf)@ + spec_parse_signal_decls(keys@, i as int),
        decreases n - i,
    {
        let ghost pre = buf@;
        match &keys[i] {
            Key::String(_) => {
                buf.append("    signal parsing_object");
                append_dec(buf, i + 1);
                buf.append("_value[DATA_BYTES];\n");
                assert(buf@ =~= pre + ("    signal parsing_object"@ + spec_dec(i as int + 1)
                    + "_value[DATA_BYTES];\n"@));
            },
            Key::Num(_) => {
                buf.append("    signal parsing_array");
                append_dec(buf, i + 1);
                buf.append("[DATA_BYTES];\n");
                assert(buf@ =~= pre + ("    signal parsing_array"@ + spec_dec(i as int + 1)
                    + "[DATA_BYTES];\n"@));
            },
        }
        i += 1;
    }
}

/// The latch signal declarations, one block per key selector.
pub open spec fn spec_match_signal_decls(keys: Seq<Key>, i: int) -> Seq<char>
    decreases i,
{
    if i <= 0 {
        Seq::empty()
    } else {
        spec_match_signal_decls(keys, i - 1) + (match keys[i - 1] {
            Key::String(_) => "    signal is_key"@ + spec_dec(i) + "_match[DATA_BYTES];\n    signal is_key"@
                + spec_dec(i) + "_match_for_value[DATA_BYTES+1];\n    is_key"@ + spec_dec(i)
                + "_match_for_value[0] <== 0;\n    signal is_next_pair_at_depth"@ + spec_dec(i)
                + "[DATA_BYTES];\n"@,
            Key::Num(_) => Seq::empty(),
        })
    }
}

#[verifier::loop_isolation(false)]
fn emit_match_signal_decls(buf: &mut String, keys: &Vec<Key>)
    ensures
        final(buf)@ == old(buf)@ + spec_match_signal_decls(keys@, keys@.len() as int),
{
    let n = keys.len();
    let mut i: usize = 0;
    while i < n
        invariant
            i <= n,
            buf@ == old(buf)@ + spec_match_signal_decls(keys@, i as int),
        decreases n - i,
    {
        let ghost pre = buf@;
        match &keys[i] {
            Key::String(_) => {
                buf.append("    signal is_key");
                append_dec(buf, i + 1);
                buf.append("_match[DATA_BYTES];\n    signal is_key");
                append_dec(buf, i + 1);
                buf.append("_match_for_value[DATA_BYTES+1];\n    is_key");
                append_dec(buf, i + 1);
                buf.append("_match_for_value[0] <== 0;\n    signal is_next_pair_at_depth");
                append_dec(buf, i + 1);
                buf.append("[DATA_BYTES];\n");
                assert(buf@ =~= pre + ("    signal is_key"@ + spec_dec(i as int + 1)
                    + "_match[DATA_BYTES];\n    signal is_key"@ + spec_dec(i as int + 1)
                    + "_match_for_value[DATA_BYTES+1];\n    is_key"@ + spec_dec(i as int + 1)
                    + "_match_for_value[0] <== 0;\n    signal is_next_pair_at_depth"@ + spec_dec(
                    i as int + 1,
                ) + "[DATA_BYTES];\n"@));
            },
            Key::Num(_) => {
                assert(pre + Seq::<char>::empty() =~= pre);
            },
        }
        i += 1;
    }
}

/// The first-position scope-flag assignments of the locate template.
pub open spec fn spec_init_parse_lines(keys: Seq<Key>, i: int) -> Seq<char>
    decreases i,
{
    if i <= 0 {
        Seq::empty()
    } else {
        spec_init_parse_lines(keys, i - 1) + (match keys[i - 1] {
            Key::String(_) => "    parsing_object"@ + spec_dec(i)
                + "_value[0] <== InsideValue()(State[0].next_stack[0], State[0].next_parsing_string, State[0].next_parsing_number);\n"@,
            Key::Num(_) => "    parsing_array"@ + spec_dec(i) + "[0] <== InsideArrayIndex(index"@
                + spec_dec(i)
                + ")(State[0].next_stack[0], State[0].next_parsing_string, State[0].next_parsing_number);\n"@,
        })
    }
}

#[verifier::loop_isolation(false)]
fn emit_init_parse_lines(buf: &mut String, keys: &Vec<Key>)
    ensures
        final(buf)@ == old(buf)@ + spec_init_parse_lines(keys@, keys@.len() as int),
{
    let n = keys.len();
    let mut i: usize = 0;
    while i < n
        invariant
            i <= n,
            buf@ == old(buf)@ + spec_init_parse_lines(keys@, i as int),
        decreases n - i,
    {
        let ghost pre = buf@;
        match &keys[i] {
            Key::String(_) => {
                buf.append("    parsing_object");
                append_dec(buf, i + 1);
                buf.append(
                    "_value[0] <== InsideValue()(State[0].next_stack[0], State[0].next_parsing_string, State[0].next_parsing_number);\n",
                );
                assert(buf@ =~= pre + ("    parsing_object"@ + spec_dec(i as int + 1)
                    + "_value[0] <== InsideValue()(State[0].next_stack[0], State[0].next_parsing_string, State[0].next_parsing_number);\n"@));
            },
            Key::Num(_) => {
                buf.append("    parsing_array");
                append_dec(buf, i + 1);
                buf.append("[0] <== InsideArrayIndex(index");
                append_dec(buf, i + 1);
                buf.append(
                    ")(State[0].next_stack[0], State[0].next_parsing_string, State[0].next_parsing_number);\n",
                );
                assert(buf@ =~= pre + ("    parsing_array"@ + spec_dec(i as int + 1)
                    + "[0] <== InsideArrayIndex(index"@ + spec_dec(i as int + 1)
                    + ")(State[0].next_stack[0], State[0].next_parsing_string, State[0].next_parsing_number);\n"@));
            },
        }
        i += 1;
    }
}

/// The per-position scope-flag assignments inside the byte loop.
pub open spec fn spec_loop_parse_lines(keys: Seq<Key>, i: int) -> Seq<char>
    decreases i,
{
    if i <= 0 {
        Seq::empty()
    } else {
        spec_loop_parse_lines(keys, i - 1) + (match keys[i - 1] {
            Key::String(_) => "        parsing_object"@ + spec_dec(i)
                + "_value[data_idx] <== InsideValue()(State[data_idx].next_stack[depth"@
                + spec_dec(i)
                + "], State[data_idx].next_parsing_string, State[data_idx].next_parsing_number);\n"@,
            Key::Num(_) => "        parsing_array"@ + spec_dec(i)
                + "[data_idx] <== InsideArrayIndex(index"@ + spec_dec(i)
                + ")(State[data_idx].next_stack[depth"@ + spec_dec(i)
                + "], State[data_idx].next_parsing_string, State[data_idx].next_parsing_number);\n"@,
        })
    }
}

#[verifier::loop_isolation(false)]
fn emit_loop_parse_lines(buf: &mut String, keys: &Vec<Key>)
    ensures
        final(buf)@ == old(buf)@ + spec_loop_parse_lines(keys@, keys@.len() as int),
{
    let n = keys.len();
    let mut i: usize = 0;
    while i < n
        invariant
            i <= n,
            buf@ == old(buf)@ + spec_loop_parse_lines(keys@, i as int),
        decreases n - i,
    {
        let ghost pre = buf@;
        match &keys[i] {
            Key::String(_) => {
                buf.append("        parsing_object");
                append_dec(buf, i + 1);
                buf.append("_value[data_idx] <== InsideValue()(State[data_idx].next_stack[depth");
                append_dec(buf, i + 1);
                buf.append(
                    "], State[data_idx].next_parsing_string, State[data_idx].next_parsing_number);\n",
                );
                assert(buf@ =~= pre + ("        parsing_object"@ + spec_dec(i as int + 1)
                    + "_value[data_idx] <== InsideValue()(State[data_idx].next_stack[depth"@
                    + spec_dec(i as int + 1)
                    + "], State[data_idx].next_parsing_string, State[data_idx].next_parsing_number);\n"@));
            },
            Key::Num(_) => {
                buf.append("        parsing_array");
                append_dec(buf, i + 1);
                buf.append("[data_idx] <== InsideArrayIndex(index");
                append_dec(buf, i + 1);
                buf.append(")(State[data_idx].next_stack[depth");
                append_dec(buf, i + 1);
                buf.append(
                    "], State[data_idx].next_parsing_string, State[data_idx].next_parsing_number);\n",
                );
                assert(buf@ =~= pre + ("        parsing_array"@ + spec_dec(i as int + 1)
                    + "[data_idx] <== InsideArrayIndex(index"@ + spec_dec(i as int + 1)
                    + ")(State[data_idx].next_stack[depth"@ + spec_dec(i as int + 1)
                    + "], State[data_idx].next_parsing_string, State[data_idx].next_parsing_number);\n"@));
            },
        }
        i += 1;
    }
}

/// The scope-flag name of selector `i` (one-based), indexed with `idx`.
pub open spec fn spec_parse_flag(keys: Seq<Key>, i: int, idx: Seq<char>) -> Seq<char> {
    match keys[i - 1] {
        Key::String(_) => "parsing_object"@ + spec_dec(i) + "_value["@ + idx + "]"@,
        Key::Num(_) => "parsing_array"@ + spec_dec(i) + "["@ + idx + "]"@,
    }
}

/// The comma-joined list of all selectors' scope flags, indexed with `idx`.
pub open spec fn spec_parse_flags_joined(keys: Seq<Key>, i: int, idx: Seq<char>) -> Seq<char>
    decreases i,
{
    if i <= 0 {
        Seq::empty()
    } else if i == 1 {
        spec_parse_flag(keys, 1, idx)
    } else {
        spec_parse_flags_joined(keys, i - 1, idx) + ", "@ + spec_parse_flag(keys, i, idx)
    }
}

#[verifier::loop_isolation(false)]
fn emit_parse_flags_joined(buf: &mut String, keys: &Vec<Key>, idx: &str)
    ensures
        final(buf)@ == old(buf)@ + spec_parse_flags_joined(keys@, keys@.len() as int, idx@),
{
    let n = keys.len();
    let mut i: usize = 0;
    while i < n
        invariant
            i <= n,
            buf@ == old(buf)@ + spec_parse_flags_joined(keys@, i as int, idx@),
        decreases n - i,
    {
        let ghost pre = buf@;
        if i > 0 {
            buf.append(", ");
        }
        match &keys[i] {
            Key::String(_) => {
                buf.append("parsing_object");
                append_dec(buf, i + 1);
                buf.append("_value[");
                buf.append(idx);
                buf.append("]");
            },
            Key::Num(_) => {
                buf.append("parsing_array");
                append_dec(buf, i + 1);
                buf.append("[");
                buf.append(idx);
                buf.append("]");
            },
        }
        proof {
            if i == 0 {
                assert(buf@ =~= pre + spec_parse_flag(keys@, 1, idx@));
            } else {
                assert(buf@ =~= pre + ", "@ + spec_parse_flag(keys@, i as int + 1, idx@));
            }
        }
        i += 1;
    }
}

/// The latched match-flag name of key selector `i`, indexed with `idx`.
pub open spec fn spec_match_flag(i: int, idx: Seq<char>) -> Seq<char> {
    "is_key"@ + spec_dec(i) + "_match_for_value["@ + idx + "]"@
}

/// The comma-joined list of the key selectors' latched match flags, indexed
/// with `idx`.
pub open spec fn spec_match_flags_joined(keys: Seq<Key>, i: int, idx: Seq<char>) -> Seq<char>
    decreases i,
{
    if i <= 0 {
        Seq::empty()
    } else {
        let prev = spec_match_flags_joined(keys, i - 1, idx);
        match keys[i - 1] {
            Key::Num(_) => prev,
            Key::String(_) => if count_string_keys(keys, i - 1) == 0 {
                spec_match_flag(i, idx)
            } else {
                prev + ", "@ + spec_match_flag(i, idx)
            },
        }
    }
}

proof fn lemma_match_flags_joined_empty(keys: Seq<Key>, i: int, idx: Seq<char>)
    requires
        count_string_keys(keys, i) == 0,
        0 <= i,
    ensures
        spec_match_flags_joined(keys, i, idx) == Seq::<char>::empty(),
    decreases i,
{
    if i > 0 {
        lemma_count_string_keys_bound(keys, i - 1);
        lemma_match_flags_joined_empty(keys, i - 1, idx);
    }
}

#[verifier::loop_isolation(false)]
fn emit_match_flags_joined(buf: &mut String, keys: &Vec<Key>, idx: &str)
    ensures
        final(buf)@ == old(buf)@ + spec_match_flags_joined(keys@, keys@.len() as int, idx@),
{
    let n = keys.len();
    let mut i: usize = 0;
    let mut seen: usize = 0;
    while i < n
        invariant
            i <= n,
            seen as int == count_string_keys(keys@, i as int),
            seen <= i,
            buf@ == old(buf)@ + spec_match_flags_joined(keys@, i as int, idx@),
        decreases n - i,
    {
        let ghost pre = buf@;
        match &keys[i] {
            Key::String(_) => {
                if seen > 0 {
                    buf.append(", ");
                }
                buf.append("is_key");
                append_dec(buf, i + 1);
                buf.append("_match_for_value[");
                buf.append(idx);
                buf.append("]");
                proof {
                    if seen == 0 {
                        lemma_match_flags_joined_empty(keys@, i as int, idx@);
                        assert(buf@ =~= old(buf)@ + spec_match_flag(i as int + 1, idx@));
                    } else {
                        assert(buf@ =~= pre + ", "@ + spec_match_flag(i as int + 1, idx@));
                    }
                }
                seen += 1;
            },
            Key::Num(_) => {},
        }
        i += 1;
    }
}

/// The text after appending, to `acc`, the first-position key-match,
/// next-pair and latch assignments of the first `i` selectors (index
/// selectors contribute nothing).
pub open spec fn spec_init_match_lines(acc: Seq<char>, keys: Seq<Key>, i: int, debug: bool) -> Seq<
    char,
>
    decreases i,
{
    if i <= 0 {
        acc
    } else {
        let prev = spec_init_match_lines(acc, keys, i - 1, debug);
        match keys[i - 1] {
            Key::Num(_) => prev,
            Key::String(_) => {
                let body = prev + "    is_key"@ + spec_dec(i)
                    + "_match[0] <== KeyMatchAtDepth(DATA_BYTES, MAX_STACK_HEIGHT, keyLen"@
                    + spec_dec(i) + ", depth"@ + spec_dec(i) + ")(data, key"@ + spec_dec(i)
                    + ", 0, parsing_key[0], State[0].next_stack);\n    is_next_pair_at_depth"@
                    + spec_dec(i)
                    + "[0] <== NextKVPairAtDepth(MAX_STACK_HEIGHT)(State[0].next_stack, data[0], depth"@
                    + spec_dec(i) + ");\n    is_key"@ + spec_dec(i)
                    + "_match_for_value[1] <== Mux1()([is_key"@ + spec_dec(i)
                    + "_match_for_value[0] * (1-is_next_pair_at_depth"@ + spec_dec(i)
                    + "[0]), is_key"@ + spec_dec(i) + "_match[0] * (1-is_next_pair_at_depth"@
                    + spec_dec(i) + "[0])], is_key"@ + spec_dec(i) + "_match[0]);\n"@;
                if debug {
                    body + "        // log(\"is_key"@ + spec_dec(i) + "_match_for_value\", is_key"@
                        + spec_dec(i) + "_match_for_value[1]);\n\n"@
                } else {
                    body
                }
            },
        }
    }
}

#[verifier::loop_isolation(false)]
fn emit_init_match_lines(buf: &mut String, keys: &Vec<Key>, debug: bool)
    ensures
        final(buf)@ == spec_init_match_lines(old(buf)@, keys@, keys@.len() as int, debug),
{
    let n = keys.len();
    let mut i: usize = 0;
    while i < n
        invariant
            i <= n,
            buf@ == spec_init_match_lines(old(buf)@, keys@, i as int, debug),
        decreases n - i,
    {
        match &keys[i] {
            Key::String(_) => {
                buf.append("    is_key");
                append_dec(buf, i + 1);
                buf.append("_match[0] <== KeyMatchAtDepth(DATA_BYTES, MAX_STACK_HEIGHT, keyLen");
                append_dec(buf, i + 1);
                buf.append(", depth");
                append_dec(buf, i + 1);
                buf.append(")(data, key");
                append_dec(buf, i + 1);
                buf.append(", 0, parsing_key[0], State[0].next_stack);\n    is_next_pair_at_depth");
                append_dec(buf, i + 1);
                buf.append(
                    "[0] <== NextKVPairAtDepth(MAX_STACK_HEIGHT)(State[0].next_stack, data[0], depth",
                );
                append_dec(buf, i + 1);
                buf.append(");\n    is_key");
                append_dec(buf, i + 1);
                buf.append("_match_for_value[1] <== Mux1()([is_key");
                append_dec(buf, i + 1);
                buf.append("_match_for_value[0] * (1-is_next_pair_at_depth");
                append_dec(buf, i + 1);
                buf.append("[0]), is_key");
                append_dec(buf, i + 1);
                buf.append("_match[0] * (1-is_next_pair_at_depth");
                append_dec(buf, i + 1);
                buf.append("[0])], is_key");
                append_dec(buf, i + 1);
                buf.append("_match[0]);\n");
                if debug {
                    buf.append("        // log(\"is_key");
                    append_dec(buf, i + 1);
                    buf.append("_match_for_value\", is_key");
                    append_dec(buf, i + 1);
                    buf.append("_match_for_value[1]);\n\n");
                }
            },
            Key::Num(_) => {},
        }
        i += 1;
    }
}

/// The text after appending, to `acc`, the per-position key-match,
/// next-pair and latch assignments of the first `i` selectors inside the
/// byte loop.
pub open spec fn spec_loop_match_lines(acc: Seq<char>, keys: Seq<Key>, i: int, debug: bool) -> Seq<
    char,
>
    decreases i,
{
    if i <= 0 {
        acc
    } else {
        let prev = spec_loop_match_lines(acc, keys, i - 1, debug);
        match keys[i - 1] {
            Key::Num(_) => prev,
            Key::String(_) => {
                let body = prev + "        is_key"@ + spec_dec(i)
                    + "_match[data_idx] <== KeyMatchAtDepth(DATA_BYTES, MAX_STACK_HEIGHT, keyLen"@
                    + spec_dec(i) + ", depth"@ + spec_dec(i) + ")(data, key"@ + spec_dec(i)
                    + ", data_idx, parsing_key[data_idx], State[data_idx].next_stack);\n        is_next_pair_at_depth"@
                    + spec_dec(i)
                    + "[data_idx] <== NextKVPairAtDepth(MAX_STACK_HEIGHT)(State[data_idx].next_stack, data[data_idx], depth"@
                    + spec_dec(i) + ");\n        is_key"@ + spec_dec(i)
                    + "_match_for_value[data_idx+1] <== Mux1()([is_key"@ + spec_dec(i)
                    + "_match_for_value[data_idx] * (1-is_next_pair_at_depth"@ + spec_dec(i)
                    + "[data_idx]), is_key"@ + spec_dec(i)
                    + "_match[data_idx] * (1-is_next_pair_at_depth"@ + spec_dec(i)
                    + "[data_idx])], is_key"@ + spec_dec(i) + "_match[data_idx]);\n"@;
                if debug {
                    body + "        // log(\"is_key"@ + spec_dec(i) + "_match_for_value\", is_key"@
                        + spec_dec(i) + "_match_for_value[data_idx+1]);\n\n"@
                } else {
                    body
                }
            },
        }
    }
}

#[verifier::loop_isolation(false)]
fn emit_loop_match_lines(buf: &mut String, keys: &Vec<Key>, debug: bool)
    ensures
        final(buf)@ == spec_loop_match_lines(old(buf)@, keys@, keys@.len() as int, debug),
{
    let n = keys.len();
    let mut i: usize = 0;
    while i < n
        invariant
            i <= n,
            buf@ == spec_loop_match_lines(old(buf)@, keys@, i as int, debug),
        decreases n - i,
    {
        match &keys[i] {
            Key::String(_) => {
                buf.append("        is_key");
                append_dec(buf, i + 1);
                buf.append(
                    "_match[data_idx] <== KeyMatchAtDepth(DATA_BYTES, MAX_STACK_HEIGHT, keyLen",
                );
                append_dec(buf, i + 1);
                buf.append(", depth");
                append_dec(buf, i + 1);
                buf.append(")(data, key");
                append_dec(buf, i + 1);
                buf.append(
                    ", data_idx, parsing_key[data_idx], State[data_idx].next_stack);\n        is_next_pair_at_depth",
                );
                append_dec(buf, i + 1);
                buf.append(
                    "[data_idx] <== NextKVPairAtDepth(MAX_STACK_HEIGHT)(State[data_idx].next_stack, data[data_idx], depth",
                );
                append_dec(buf, i + 1);
                buf.append(");\n        is_key");
                append_dec(buf, i + 1);
                buf.append("_match_for_value[data_idx+1] <== Mux1()([is_key");
                append_dec(buf, i + 1);
                buf.append("_match_for_value[data_idx] * (1-is_next_pair_at_depth");
                append_dec(buf, i + 1);
                buf.append("[data_idx]), is_key");
                append_dec(buf, i + 1);
                buf.append("_match[data_idx] * (1-is_next_pair_at_depth");
                append_dec(buf, i + 1);
                buf.append("[data_idx])], is_key");
                append_dec(buf, i + 1);
                buf.append("_match[data_idx]);\n");
                if debug {
                    buf.append("        // log(\"is_key");
                    append_dec(buf, i + 1);
                    buf.append("_match_for_value\", is_key");
                    append_dec(buf, i + 1);
                    buf.append("_match_for_value[data_idx+1]);\n\n");
                }
            },
            Key::Num(_) => {},
        }
        i += 1;
    }
}

/// The text after appending, to `acc`, the commented-out per-selector log
/// list that a debug build places after the combined scope flag.
pub open spec fn spec_debug_parse_list(acc: Seq<char>, keys: Seq<Key>, i: int) -> Seq<char>
    decreases i,
{
    if i <= 0 {
        acc
    } else {
        let prev = spec_debug_parse_list(acc, keys, i - 1);
        match keys[i - 1] {
            Key::String(_) => prev + "parsing_object"@ + spec_dec(i) + "_value[data_idx], "@,
            Key::Num(_) => prev + "parsing_array"@ + spec_dec(i) + "[data_idx], "@,
        }
    }
}

#[verifier::loop_isolation(false)]
fn emit_debug_parse_list(buf: &mut String, keys: &Vec<Key>)
    ensures
        final(buf)@ == spec_debug_parse_list(old(buf)@, keys@, keys@.len() as int),
{
    let n = keys.len();
    let mut i: usize = 0;
    while i < n
        invariant
            i <= n,
            buf@ == spec_debug_parse_list(old(buf)@, keys@, i as int),
        decreases n - i,
    {
        match &keys[i] {
            Key::String(_) => {
                buf.append("parsing_object");
                append_dec(buf, i + 1);
                buf.append("_value[data_idx], ");
            },
            Key::Num(_) => {
                buf.append("parsing_array");
                append_dec(buf, i + 1);
                buf.append("[data_idx], ");
            },
        }
        i += 1;
    }
}

/// The text after appending, to `acc`, the extraction template for a string
/// value: it instantiates the locate template and copies `maxValueLen` bytes
/// starting one past the computed starting index.
pub open spec fn spec_extract_string_tail(acc: Seq<char>, keys: Seq<Key>, debug: bool) -> Seq<
    char,
> {
    let t = acc + "template ExtractStringValue("@ + spec_join(spec_params(keys), ", "@)
        + ") {\n    signal input data[DATA_BYTES];\n\n"@ + spec_key_inputs(
        keys,
        keys.len() as int,
    )
        + "\n    signal output value[maxValueLen];\n\n    signal value_starting_index[DATA_BYTES];\n    value_starting_index <== ExtractValue("@
        + spec_join(spec_params(keys), ", "@) + ")("@ + spec_join(spec_inputs(keys), ", "@)
        + ");\n\n    value <== SelectSubArray(DATA_BYTES, maxValueLen)(data, value_starting_index[DATA_BYTES-1]+1, maxValueLen);"@;
    let t = if debug {
        t
            + "\n    log(\"value_starting_index\", value_starting_index[DATA_BYTES-1]+1);\n    for (var i=0 ; i<maxValueLen; i++) {\n        log(\"value[\",i,\"]=\", value[i]);\n    }"@
    } else {
        t
    };
    t + "\n}\n"@
}

/// The text after appending, to `acc`, the extraction template for a number
/// value: it copies the digits starting exactly at the computed starting
/// index and folds them into a single integer.
pub open spec fn spec_extract_num_tail(acc: Seq<char>, keys: Seq<Key>, debug: bool) -> Seq<char> {
    let t = acc + "template ExtractNumValue("@ + spec_join(spec_params(keys), ", "@)
        + ") {\n    signal input data[DATA_BYTES];\n\n"@ + spec_key_inputs(
        keys,
        keys.len() as int,
    )
        + "\n    signal value_string[maxValueLen];\n    signal output value;\n\n    signal value_starting_index[DATA_BYTES];\n    value_starting_index <== ExtractValue("@
        + spec_join(spec_params(keys), ", "@) + ")("@ + spec_join(spec_inputs(keys), ", "@)
        + ");\n\n    value_string <== SelectSubArray(DATA_BYTES, maxValueLen)(data, value_starting_index[DATA_BYTES-1], maxValueLen);\n"@;
    let t = if debug {
        t
            + "\n    log(\"value_starting_index\", value_starting_index[DATA_BYTES-1]);\n    for (var i=0 ; i<maxValueLen; i++) {\n        log(\"value[\",i,\"]=\", value_string[i]);\n    }"@
    } else {
        t
    };
    t
        + "\n\n    signal number_value[maxValueLen];\n    number_value[0] <== (value_string[0]-48);\n    for (var i=1 ; i<maxValueLen ; i++) {\n        number_value[i] <== number_value[i-1] * 10 + (value_string[i]-48);\n    }\n\n    value <== number_value[maxValueLen-1];\n}\n"@
}

/// The complete source text of the generated JSON extraction circuit for
/// one spec: the comment-block dump, the `ExtractValue` locate template, and
/// the extraction template the value kind selects.  A path without key
/// selectors has no latch/propagation stage: the mask is then the combined
/// scope flag alone.
pub open spec fn spec_json_circuit(keys: Seq<Key>, vt: ValueType, debug: bool) -> Seq<char> {
    let k = keys.len() as int;
    let m = count_string_keys(keys, k);
    let t = Seq::<char>::empty() + "/*\n"@ + spec_dump(keys, vt)
        + "\n*/\npragma circom 2.1.9;\n\ninclude \"../json/interpreter.circom\";\n\ntemplate ExtractValue("@
        + spec_join(spec_params(keys), ", "@) + ") {\n    signal input data[DATA_BYTES];\n\n"@
        + spec_key_inputs(keys, k)
        + "    // value starting index in `data`\n    signal output value_starting_index[DATA_BYTES];\n"@
        + (if m > 0 {
        "    // flag determining whether this byte is matched value\n    signal is_value_match[DATA_BYTES];\n"@
    } else {
        Seq::<char>::empty()
    })
        + "    // final mask\n    signal mask[DATA_BYTES];\n\n    component State[DATA_BYTES];\n    State[0] = StateUpdate(MAX_STACK_HEIGHT);\n    State[0].byte           <== data[0];\n    for(var i = 0; i < MAX_STACK_HEIGHT; i++) {\n        State[0].stack[i]   <== [0,0];\n    }\n    State[0].parsing_string <== 0;\n    State[0].parsing_number <== 0;\n\n    signal parsing_key[DATA_BYTES];\n    signal parsing_value[DATA_BYTES];\n"@
        + spec_parse_signal_decls(keys, k) + spec_match_signal_decls(keys, k)
        + "\n    // initialise first iteration\n    parsing_key[0] <== InsideKeyAtTop(MAX_STACK_HEIGHT)(State[0].next_stack, State[0].next_parsing_string, State[0].next_parsing_number);\n\n"@
        + spec_init_parse_lines(keys, k)
        + "     // parsing correct value = AND(all individual stack values)\n    parsing_value[0] <== MultiAND("@
        + spec_dec(k) + ")(["@ + spec_parse_flags_joined(keys, k, "0"@) + "]);\n\n"@;
    let t = spec_init_match_lines(t, keys, k, debug);
    let t = if m > 0 {
        t + "    is_value_match[0] <== MultiAND("@ + spec_dec(m) + ")(["@
            + spec_match_flags_joined(keys, k, "1"@)
            + "]);\n\n    mask[0] <== parsing_value[0] * is_value_match[0];\n\n    for(var data_idx = 1; data_idx < DATA_BYTES; data_idx++) {"@
    } else {
        t
            + "    mask[0] <== parsing_value[0];\n\n    for(var data_idx = 1; data_idx < DATA_BYTES; data_idx++) {"@
    };
    let t = if debug {
        t
            + "\n        // Debugging\n        for(var i = 0; i<MAX_STACK_HEIGHT; i++) {\n            log(\"State[\", data_idx-1, \"].stack[\", i,\"]    \", \"= [\",State[data_idx-1].next_stack[i][0], \"][\", State[data_idx-1].next_stack[i][1],\"]\" );\n        }\n        log(\"State[\", data_idx-1, \"].byte\", \"= \", data[data_idx-1]);\n        log(\"State[\", data_idx-1, \"].parsing_string\", \"= \", State[data_idx-1].next_parsing_string);\n        log(\"State[\", data_idx-1, \"].parsing_number\", \"= \", State[data_idx-1].next_parsing_number);\n"@
    } else {
        t
    };
    let t = t
        + "\n        State[data_idx]                  = StateUpdate(MAX_STACK_HEIGHT);\n        State[data_idx].byte           <== data[data_idx];\n        State[data_idx].stack          <== State[data_idx - 1].next_stack;\n        State[data_idx].parsing_string <== State[data_idx - 1].next_parsing_string;\n        State[data_idx].parsing_number <== State[data_idx - 1].next_parsing_number;\n\n        // - parsing key\n        // - parsing value (different for string/numbers and array)\n        // - key match (key 1, key 2)\n        // - is next pair\n        // - is key match for value\n        // - value_mask\n        // - mask\n\n        // check if inside key or not\n        parsing_key[data_idx] <== InsideKeyAtTop(MAX_STACK_HEIGHT)(State[data_idx].next_stack, State[data_idx].next_parsing_string, State[data_idx].next_parsing_number);\n\n"@
        + spec_loop_parse_lines(keys, k)
        + "        // parsing correct value = AND(all individual stack values)\n        parsing_value[data_idx] <== MultiAND("@
        + spec_dec(k) + ")(["@ + spec_parse_flags_joined(keys, k, "data_idx"@) + "]);\n"@;
    let t = if debug {
        spec_debug_parse_list(t + "        // log(\"parsing value:\", "@, keys, k)
            + "parsing_value[data_idx]);\n\n"@
    } else {
        t
    };
    let t = if m > 0 {
        let t = t
            + "\n        // to get correct value, check:\n        // - key matches at current index and depth of key is as specified\n        // - whether next KV pair starts\n        // - whether key matched for a value (propogate key match until new KV pair of lower depth starts)\n"@;
        let t = spec_loop_match_lines(t, keys, k, debug);
        t + "        is_value_match[data_idx] <== MultiAND("@ + spec_dec(m) + ")(["@
            + spec_match_flags_joined(keys, k, "data_idx+1"@)
            + "]);\n\n        // mask = currently parsing value and all subsequent keys matched\n        mask[data_idx] <== parsing_value[data_idx] * is_value_match[data_idx];\n    }"@
    } else {
        t + "\n        // mask = currently parsing value\n        mask[data_idx] <== parsing_value[data_idx];\n    }"@
    };
    let t = if debug {
        t
            + "\n    for(var i = 0; i < MAX_STACK_HEIGHT; i++) {\n        log(\"State[\", DATA_BYTES-1, \"].stack[\", i,\"]    \", \"= [\",State[DATA_BYTES -1].next_stack[i][0], \"][\", State[DATA_BYTES - 1].next_stack[i][1],\"]\" );\n    }\n    log(\"State[\", DATA_BYTES-1, \"].parsing_string\", \"= \", State[DATA_BYTES-1].next_parsing_string);\n    log(\"State[\", DATA_BYTES-1, \"].parsing_number\", \"= \", State[DATA_BYTES-1].next_parsing_number);\n    log(\"xxxxxxxxxxxxxxxxxxxxxxxxxxxxxxxxxxxxxxxxxxxxxxxx\");\n    "@
    } else {
        t
    };
    let t = t
        + "\n\n    // find starting index of value in data by matching mask\n    signal is_zero_mask[DATA_BYTES];\n    signal is_prev_starting_index[DATA_BYTES];\n    value_starting_index[0] <== 0;\n    is_prev_starting_index[0] <== 0;\n    is_zero_mask[0] <== IsZero()(mask[0]);\n    for (var i=1 ; i<DATA_BYTES ; i++) {\n        is_zero_mask[i] <== IsZero()(mask[i]);\n        is_prev_starting_index[i] <== IsZero()(value_starting_index[i-1]);\n        value_starting_index[i] <== value_starting_index[i-1] + i * (1-is_zero_mask[i]) * is_prev_starting_index[i];\n    }\n}\n"@;
    match vt {
        ValueType::String => spec_extract_string_tail(t, keys, debug),
        ValueType::Number => spec_extract_num_tail(t, keys, debug),
    }
}

/// Emits the source text of the generated JSON extraction circuit.
pub fn json_circuit_source(lockfile: &Lockfile, debug: bool) -> (r: String)
    ensures
        r@ == spec_json_circuit(lockfile.keys@, lockfile.value_type, debug),
{
    let keys = &lockfile.keys;
    let k = keys.len();
    let m = count_keys(keys);
    let params = lockfile.params();
    let inputs = lockfile.inputs();
    let mut buf = String::new();
    buf.append("/*\n");
    emit_dump(&mut buf, lockfile);
    buf.append(
        "\n*/\npragma circom 2.1.9;\n\ninclude \"../json/interpreter.circom\";\n\ntemplate ExtractValue(",
    );
    append_joined(&mut buf, &params, ", ");
    buf.append(") {\n    signal input data[DATA_BYTES];\n\n");
    emit_key_inputs(&mut buf, keys);
    buf.append(
        "    // value starting index in `data`\n    signal output value_starting_index[DATA_BYTES];\n",
    );
    if m > 0 {
        buf.append(
            "    // flag determining whether this byte is matched value\n    signal is_value_match[DATA_BYTES];\n",
        );
    } else {
        proof {
            assert(buf@ + Seq::<char>::empty() =~= buf@);
        }
    }
    buf.append(
        "    // final mask\n    signal mask[DATA_BYTES];\n\n    component State[DATA_BYTES];\n    State[0] = StateUpdate(MAX_STACK_HEIGHT);\n    State[0].byte           <== data[0];\n    for(var i = 0; i < MAX_STACK_HEIGHT; i++) {\n        State[0].stack[i]   <== [0,0];\n    }\n    State[0].parsing_string <== 0;\n    State[0].parsing_number <== 0;\n\n    signal parsing_key[DATA_BYTES];\n    signal parsing_value[DATA_BYTES];\n",
    );
    emit_parse_signal_decls(&mut buf, keys);
    emit_match_signal_decls(&mut buf, keys);
    buf.append(
        "\n    // initialise first iteration\n    parsing_key[0] <== InsideKeyAtTop(MAX_STACK_HEIGHT)(State[0].next_stack, State[0].next_parsing_string, State[0].next_parsing_number);\n\n",
    );
    emit_init_parse_lines(&mut buf, keys);
    buf.append(
        "     // parsing correct value = AND(all individual stack values)\n    parsing_value[0] <== MultiAND(",
    );
    append_dec(&mut buf, k);
    buf.append(")([");
    emit_parse_flags_joined(&mut buf, keys, "0");
    buf.append("]);\n\n");
    emit_init_match_lines(&mut buf, keys, debug);
    if m > 0 {
        buf.append("    is_value_match[0] <== MultiAND(");
        append_dec(&mut buf, m);
        buf.append(")([");
        emit_match_flags_joined(&mut buf, keys, "1");
        buf.append(
            "]);\n\n    mask[0] <== parsing_value[0] * is_value_match[0];\n\n    for(var data_idx = 1; data_idx < DATA_BYTES; data_idx++) {",
        );
    } else {
        buf.append(
            "    mask[0] <== parsing_value[0];\n\n    for(var data_idx = 1; data_idx < DATA_BYTES; data_idx++) {",
        );
    }
    if debug {
        buf.append(
            "\n        // Debugging\n        for(var i = 0; i<MAX_STACK_HEIGHT; i++) {\n            log(\"State[\", data_idx-1, \"].stack[\", i,\"]    \", \"= [\",State[data_idx-1].next_stack[i][0], \"][\", State[data_idx-1].next_stack[i][1],\"]\" );\n        }\n        log(\"State[\", data_idx-1, \"].byte\", \"= \", data[data_idx-1]);\n        log(\"State[\", data_idx-1, \"].parsing_string\", \"= \", State[data_idx-1].next_parsing_string);\n        log(\"State[\", data_idx-1, \"].parsing_number\", \"= \", State[data_idx-1].next_parsing_number);\n",
        );
    }
    buf.append(
        "\n        State[data_idx]                  = StateUpdate(MAX_STACK_HEIGHT);\n        State[data_idx].byte           <== data[data_idx];\n        State[data_idx].stack          <== State[data_idx - 1].next_stack;\n        State[data_idx].parsing_string <== State[data_idx - 1].next_parsing_string;\n        State[data_idx].parsing_number <== State[data_idx - 1].next_parsing_number;\n\n        // - parsing key\n        // - parsing value (different for string/numbers and array)\n        // - key match (key 1, key 2)\n        // - is next pair\n        // - is key match for value\n        // - value_mask\n        // - mask\n\n        // check if inside key or not\n        parsing_key[data_idx] <== InsideKeyAtTop(MAX_STACK_HEIGHT)(State[data_idx].next_stack, State[data_idx].next_parsing_string, State[data_idx].next_parsing_number);\n\n",
    );
    emit_loop_parse_lines(&mut buf, keys);
    buf.append(
        "        // parsing correct value = AND(all individual stack values)\n        parsing_value[data_idx] <== MultiAND(",
    );
    append_dec(&mut buf, k);
    buf.append(")([");
    emit_parse_flags_joined(&mut buf, keys, "data_idx");
    buf.append("]);\n");
    if debug {
        buf.append("        // log(\"parsing value:\", ");
        emit_debug_parse_list(&mut buf, keys);
        buf.append("parsing_value[data_idx]);\n\n");
    }
    if m > 0 {
        buf.append(
            "\n        // to get correct value, check:\n        // - key matches at current index and depth of key is as specified\n        // - whether next KV pair starts\n        // - whether key matched for a value (propogate key match until new KV pair of lower depth starts)\n",
        );
        emit_loop_match_lines(&mut buf, keys, debug);
        buf.append("        is_value_match[data_idx] <== MultiAND(");
        append_dec(&mut buf, m);
        buf.append(")([");
        emit_match_flags_joined(&mut buf, keys, "data_idx+1");
        buf.append(
            "]);\n\n        // mask = currently parsing value and all subsequent keys matched\n        mask[data_idx] <== parsing_value[data_idx] * is_value_match[data_idx];\n    }",
        );
    } else {
        buf.append(
            "\n        // mask = currently parsing value\n        mask[data_idx] <== parsing_value[data_idx];\n    }",
        );
    }
    if debug {
        buf.append(
            "\n    for(var i = 0; i < MAX_STACK_HEIGHT; i++) {\n        log(\"State[\", DATA_BYTES-1, \"].stack[\", i,\"]    \", \"= [\",State[DATA_BYTES -1].next_stack[i][0], \"][\", State[DATA_BYTES - 1].next_stack[i][1],\"]\" );\n    }\n    log(\"State[\", DATA_BYTES-1, \"].parsing_string\", \"= \", State[DATA_BYTES-1].next_parsing_string);\n    log(\"State[\", DATA_BYTES-1, \"].parsing_number\", \"= \", State[DATA_BYTES-1].next_parsing_number);\n    log(\"xxxxxxxxxxxxxxxxxxxxxxxxxxxxxxxxxxxxxxxxxxxxxxxx\");\n    ",
        );
    }
    buf.append(
        "\n\n    // find starting index of value in data by matching mask\n    signal is_zero_mask[DATA_BYTES];\n    signal is_prev_starting_index[DATA_BYTES];\n    value_starting_index[0] <== 0;\n    is_prev_starting_index[0] <== 0;\n    is_zero_mask[0] <== IsZero()(mask[0]);\n    for (var i=1 ; i<DATA_BYTES ; i++) {\n        is_zero_mask[i] <== IsZero()(mask[i]);\n        is_prev_starting_index[i] <== IsZero()(value_starting_index[i-1]);\n        value_starting_index[i] <== value_starting_index[i-1] + i * (1-is_zero_mask[i]) * is_prev_starting_index[i];\n    }\n}\n",
    );
    match &lockfile.value_type {
        ValueType::String => {
            buf.append("template ExtractStringValue(");
            append_joined(&mut buf, &params, ", ");
            buf.append(") {\n    signal input data[DATA_BYTES];\n\n");
            emit_key_inputs(&mut buf, keys);
            buf.append(
                "\n    signal output value[maxValueLen];\n\n    signal value_starting_index[DATA_BYTES];\n    value_starting_index <== ExtractValue(",
            );
            append_joined(&mut buf, &params, ", ");
            buf.append(")(");
            append_joined(&mut buf, &inputs, ", ");
            buf.append(
                ");\n\n    value <== SelectSubArray(DATA_BYTES, maxValueLen)(data, value_starting_index[DATA_BYTES-1]+1, maxValueLen);",
            );
            if debug {
                buf.append(
                    "\n    log(\"value_starting_index\", value_starting_index[DATA_BYTES-1]+1);\n    for (var i=0 ; i<maxValueLen; i++) {\n        log(\"value[\",i,\"]=\", value[i]);\n    }",
                );
            }
            buf.append("\n}\n");
        },
        ValueType::Number => {
            buf.append("template ExtractNumValue(");
            append_joined(&mut buf, &params, ", ");
            buf.append(") {\n    signal input data[DATA_BYTES];\n\n");
            emit_key_inputs(&mut buf, keys);
            buf.append(
                "\n    signal value_string[maxValueLen];\n    signal output value;\n\n    signal value_starting_index[DATA_BYTES];\n    value_starting_index <== ExtractValue(",
            );
            append_joined(&mut buf, &params, ", ");
            buf.append(")(");
            append_joined(&mut buf, &inputs, ", ");
            buf.append(
                ");\n\n    value_string <== SelectSubArray(DATA_BYTES, maxValueLen)(data, value_starting_index[DATA_BYTES-1], maxValueLen);\n",
            );
            if debug {
                buf.append(
                    "\n    log(\"value_starting_index\", value_starting_index[DATA_BYTES-1]);\n    for (var i=0 ; i<maxValueLen; i++) {\n        log(\"value[\",i,\"]=\", value_string[i]);\n    }",
                );
            }
            buf.append(
                "\n\n    signal number_value[maxValueLen];\n    number_value[0] <== (value_string[0]-48);\n    for (var i=1 ; i<maxValueLen ; i++) {\n        number_value[i] <== number_value[i-1] * 10 + (value_string[i]-48);\n    }\n\n    value <== number_value[maxValueLen-1];\n}\n",
            );
        },
    }
    buf
}

/// Builds the registry record for one input and emits the matching circuit
/// source: the record's parameters and the emitted template are derived from
/// the same spec, so the two cannot diverge.
pub fn json_circuit_from_lockfile(
    input: &[u8],
    lockfile: &Lockfile,
    output_filename: &str,
    debug: bool,
) -> (r: Result<(CircomkitCircuitConfig, String), ExtractError>)
    ensures
        match r {
            Ok((c, source)) => {
                &&& spec_populate_params(lockfile.keys@, lockfile.value_type, input@) == Ok::<
                    Seq<int>,
                    ExtractError,
                >(c.params@.map_values(|x: usize| x as int))
                &&& c.file@ == "main/"@ + output_filename@
                &&& c.template@ == spec_template_name(lockfile.value_type)
                &&& source@ == spec_json_circuit(lockfile.keys@, lockfile.value_type, debug)
            },
            Err(e) => spec_populate_params(lockfile.keys@, lockfile.value_type, input@) == Err::<
                Seq<int>,
                ExtractError,
            >(e),
        },
{
    let config = match lockfile.build_circuit_config(input, output_filename) {
        Ok(c) => c,
        Err(e) => {
            return Err(e);
        },
    };
    let source = json_circuit_source(lockfile, debug);
    Ok((config, source))
}

} // verus!