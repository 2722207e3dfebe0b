//! The HTTP side of the generator: the locked request/response shape, the
//! byte-level parse of a concrete message, the parameter vector derived from
//! it, and the emission of the lock template.

use vstd::prelude::*;
use vstd::utf8::encode_utf8;

use crate::byteseq::{
    bytes_eq, bytes_lt, find_sub, find_sub_at, lex_lt, lemma_lex_asym, lemma_lex_irrefl,
    lemma_lex_total, split_sub,
};
use crate::error::ExtractError;
use crate::circuit_config::CircomkitCircuitConfig;
use crate::codegen::json::byte_len;
use crate::json_value::JsonValue;
use crate::text::{append_dec, spec_dec};

verus! {

/// The locked shape of a request: its start-line fields and the header
/// name/value pairs that must be present, ordered by name.
#[derive(Debug)]
pub struct Request {
    pub method: String,
    pub target: String,
    pub version: String,
    pub headers: Vec<(String, String)>,
}

/// The locked shape of a response: its status-line fields and the header
/// name/value pairs that must be present, ordered by name.
#[derive(Debug)]
pub struct Response {
    pub version: String,
    pub status: String,
    pub message: String,
    pub headers: Vec<(String, String)>,
}

/// The locked shape of either side of an HTTP exchange.
#[derive(Debug)]
pub enum HttpData {
    Request(Request),
    Response(Response),
}

/// `map` with `value` written under `name`: ordered by name in byte order,
/// the newest value winning on an existing name.
pub open spec fn spec_hdr_insert(
    hs: Seq<(String, String)>,
    name: String,
    value: String,
) -> Seq<(String, String)>
    decreases hs.len(),
{
    if hs.len() == 0 {
        seq![(name, value)]
    } else if lex_lt(encode_utf8(name@), encode_utf8(hs[0].0@)) {
        seq![(name, value)] + hs
    } else if encode_utf8(name@) == encode_utf8(hs[0].0@) {
        seq![(hs[0].0, value)] + hs.drop_first()
    } else {
        seq![hs[0]] + spec_hdr_insert(hs.drop_first(), name, value)
    }
}

proof fn lemma_hdr_insert_at(hs: Seq<(String, String)>, name: String, value: String, i: int)
    requires
        0 <= i <= hs.len(),
        forall|k: int|
            0 <= k < i ==> lex_lt(encode_utf8(#[trigger] hs[k].0@), encode_utf8(name@)),
        i < hs.len() ==> !lex_lt(encode_utf8(hs[i].0@), encode_utf8(name@)),
    ensures
        spec_hdr_insert(hs, name, value) == if i < hs.len() && encode_utf8(name@) == encode_utf8(
            hs[i].0@,
        ) {
            hs.update(i, (hs[i].0, value))
        } else {
            hs.insert(i, (name, value))
        },
    decreases i,
{
    if i == 0 {
        if hs.len() == 0 {
            assert(spec_hdr_insert(hs, name, value) =~= hs.insert(0, (name, value)));
        } else {
            lemma_lex_total(encode_utf8(name@), encode_utf8(hs[0].0@));
            lemma_lex_irrefl(encode_utf8(name@));
            if lex_lt(encode_utf8(name@), encode_utf8(hs[0].0@)) {
                assert(seq![(name, value)] + hs =~= hs.insert(0, (name, value)));
            } else if encode_utf8(name@) == encode_utf8(hs[0].0@) {
                assert(seq![(hs[0].0, value)] + hs.drop_first() =~= hs.update(0, (hs[0].0, value)));
            }
        }
    } else {
        let rest = hs.drop_first();
        assert(lex_lt(encode_utf8(hs[0].0@), encode_utf8(name@)));
        lemma_lex_asym(encode_utf8(hs[0].0@), encode_utf8(name@));
        lemma_lex_irrefl(encode_utf8(name@));
        assert forall|k: int|
            0 <= k < i - 1 implies lex_lt(encode_utf8(#[trigger] rest[k].0@), encode_utf8(name@)) by {
            assert(rest[k] == hs[k + 1]);
        }
        lemma_hdr_insert_at(rest, name, value, i - 1);
        if i < hs.len() && encode_utf8(name@) == encode_utf8(hs[i].0@) {
            assert(seq![hs[0]] + rest.update(i - 1, (rest[i - 1].0, value)) =~= hs.update(
                i,
                (hs[i].0, value),
            ));
        } else {
            assert(seq![hs[0]] + rest.insert(i - 1, (name, value)) =~= hs.insert(
                i,
                (name, value),
            ));
        }
    }
}

/// Writes `value` under `name` in an ordered header map.
#[verifier::loop_isolation(false)]
fn hdr_insert(hs: &mut Vec<(String, String)>, name: String, value: String)
    ensures
        final(hs)@ == spec_hdr_insert(old(hs)@, name, value),
{
    let n = hs.len();
    let mut i: usize = 0;
    while i < n
        invariant
            i <= n,
            n == hs@.len(),
            hs@ == old(hs)@,
            forall|k: int|
                0 <= k < i as int ==> lex_lt(
                    encode_utf8(#[trigger] hs@[k].0@),
                    encode_utf8(name@),
                ),
        decreases n - i,
    {
        if !bytes_lt(hs[i].0.as_str().as_bytes(), name.as_str().as_bytes()) {
            break ;
        }
        i += 1;
    }
    proof {
        lemma_hdr_insert_at(hs@, name, value, i as int);
    }
    if i < n && bytes_eq(name.as_str().as_bytes(), hs[i].0.as_str().as_bytes()) {
        hs[i].1 = value;
    } else {
        hs.insert(i, (name, value));
    }
}

/// The header map the numbered `headerName<i>`/`headerValue<i>` fields of a
/// lockfile document denote, read in increasing `i` until a pair is missing
/// or malformed, and written into the ordered map in that order.  `fuel`
/// bounds the walk; the callers hand it the document's field count, which no
/// run of distinct numbered fields can exceed.
pub open spec fn spec_collect_headers(
    acc: Seq<(String, String)>,
    doc: JsonValue,
    i: int,
    fuel: nat,
) -> Seq<(String, String)>
    decreases fuel,
{
    if fuel == 0 {
        acc
    } else {
        match doc.spec_get_key("headerName"@ + crate::text::spec_dec(i)) {
            Some(JsonValue::Text(name)) => match doc.spec_get_key(
                "headerValue"@ + crate::text::spec_dec(i),
            ) {
                Some(JsonValue::Text(value)) => spec_collect_headers(
                    spec_hdr_insert(acc, name, value),
                    doc,
                    i + 1,
                    (fuel - 1) as nat,
                ),
                _ => acc,
            },
            _ => acc,
        }
    }
}

/// Reads the numbered header fields out of a parsed lockfile document.
#[verifier::loop_isolation(false)]
fn collect_headers(doc: &JsonValue, fuel: usize) -> (r: Vec<(String, String)>)
    ensures
        r@ == spec_collect_headers(Seq::empty(), *doc, 1, fuel as nat),
{
    let mut hs: Vec<(String, String)> = Vec::new();
    let mut left: usize = fuel;
    loop
        invariant
            left <= fuel,
            spec_collect_headers(Seq::empty(), *doc, 1, fuel as nat) == spec_collect_headers(
                hs@,
                *doc,
                1 + (fuel - left) as int,
                left as nat,
            ),
        decreases left,
    {
        if left == 0 {
            return hs;
        }
        let i: usize = 1 + (fuel - left);
        let mut name_key = String::from_str("headerName");
        append_dec(&mut name_key, i);
        let mut value_key = String::from_str("headerValue");
        append_dec(&mut value_key, i);
        let name = match doc.get_key(&name_key) {
            Some(JsonValue::Text(s)) => s.clone(),
            _ => {
                return hs;
            },
        };
        let value = match doc.get_key(&value_key) {
            Some(JsonValue::Text(s)) => s.clone(),
            _ => {
                return hs;
            },
        };
        hdr_insert(&mut hs, name, value);
        left -= 1;
    }
}

impl HttpData {
    /// The shape as a plain value: whether it is a request, the three
    /// start-line fields in their order, and the ordered headers.
    pub open spec fn http_view(self) -> (bool, Seq<char>, Seq<char>, Seq<char>, Seq<
        (String, String),
    >) {
        match self {
            HttpData::Request(r) => (true, r.method@, r.target@, r.version@, r.headers@),
            HttpData::Response(r) => (false, r.version@, r.status@, r.message@, r.headers@),
        }
    }

    /// The ordered header pairs of either shape.
    pub open spec fn spec_headers(self) -> Seq<(String, String)> {
        match self {
            HttpData::Request(r) => r.headers@,
            HttpData::Response(r) => r.headers@,
        }
    }
}

/// The locked shape a parsed lockfile document denotes: a request when the
/// `method`, `target` and `version` fields are all strings, otherwise a
/// response when `version`, `status` and `message` are, with the numbered
/// header fields in either case.
pub open spec fn spec_http_of(doc: JsonValue) -> Option<
    (bool, Seq<char>, Seq<char>, Seq<char>, Seq<(String, String)>),
> {
    let fuel = match doc {
        JsonValue::Object(entries) => entries@.len(),
        _ => 0,
    };
    let headers = spec_collect_headers(Seq::empty(), doc, 1, fuel);
    match (doc.spec_get_key("method"@), doc.spec_get_key("target"@), doc.spec_get_key(
        "version"@,
    )) {
        (Some(JsonValue::Text(m)), Some(JsonValue::Text(t)), Some(JsonValue::Text(v))) => Some(
            (true, m@, t@, v@, headers),
        ),
        _ => match (doc.spec_get_key("version"@), doc.spec_get_key("status"@), doc.spec_get_key(
            "message"@,
        )) {
            (Some(JsonValue::Text(v)), Some(JsonValue::Text(s)), Some(JsonValue::Text(m))) => Some(
                (false, v@, s@, m@, headers),
            ),
            _ => None,
        },
    }
}

impl HttpData {
    /// Reads the locked shape out of a parsed lockfile document.
    pub fn from_json(doc: &JsonValue) -> (r: Result<HttpData, ExtractError>)
        ensures
            match r {
                Ok(d) => spec_http_of(*doc) == Some(d.http_view()),
                Err(e) => spec_http_of(*doc) is None && e == ExtractError::SpecParse,
            },
    {
        let fuel = match doc {
            JsonValue::Object(entries) => entries.len(),
            _ => 0,
        };
        let headers = collect_headers(doc, fuel);
        let m = doc.get_key(&String::from_str("method"));
        let t = doc.get_key(&String::from_str("target"));
        let v = doc.get_key(&String::from_str("version"));
        match (m, t, v) {
            (
                Some(JsonValue::Text(method)),
                Some(JsonValue::Text(target)),
                Some(JsonValue::Text(version)),
            ) => Ok(
                HttpData::Request(
                    Request {
                        method: method.clone(),
                        target: target.clone(),
                        version: version.clone(),
                        headers,
                    },
                ),
            ),
            _ => {
                let v2 = doc.get_key(&String::from_str("version"));
                let s2 = doc.get_key(&String::from_str("status"));
                let m2 = doc.get_key(&String::from_str("message"));
                match (v2, s2, m2) {
                    (
                        Some(JsonValue::Text(version)),
                        Some(JsonValue::Text(status)),
                        Some(JsonValue::Text(message)),
                    ) => Ok(
                        HttpData::Response(
                            Response {
                                version: version.clone(),
                                status: status.clone(),
                                message: message.clone(),
                                headers,
                            },
                        ),
                    ),
                    _ => Err(ExtractError::SpecParse),
                }
            },
        }
    }
}

/// A concrete HTTP message, parsed: the three start-line fields, the header
/// pairs ordered by name (the last occurrence of a name winning), and the
/// body.
#[derive(Debug)]
pub struct HttpMessage {
    pub start1: Vec<u8>,
    pub start2: Vec<u8>,
    pub start3: Vec<u8>,
    pub headers: Vec<(Vec<u8>, Vec<u8>)>,
    pub body: Vec<u8>,
}

/// Like [`spec_hdr_insert`], over raw header bytes.
pub open spec fn spec_hdr_insert_bytes(
    hs: Seq<(Seq<u8>, Seq<u8>)>,
    name: Seq<u8>,
    value: Seq<u8>,
) -> Seq<(Seq<u8>, Seq<u8>)>
    decreases hs.len(),
{
    if hs.len() == 0 {
        seq![(name, value)]
    } else if lex_lt(name, hs[0].0) {
        seq![(name, value)] + hs
    } else if name == hs[0].0 {
        seq![(hs[0].0, value)] + hs.drop_first()
    } else {
        seq![hs[0]] + spec_hdr_insert_bytes(hs.drop_first(), name, value)
    }
}

proof fn lemma_hdr_insert_bytes_at(
    hs: Seq<(Seq<u8>, Seq<u8>)>,
    name: Seq<u8>,
    value: Seq<u8>,
    i: int,
)
    requires
        0 <= i <= hs.len(),
        forall|k: int| 0 <= k < i ==> lex_lt(#[trigger] hs[k].0, name),
        i < hs.len() ==> !lex_lt(hs[i].0, name),
    ensures
        spec_hdr_insert_bytes(hs, name, value) == if i < hs.len() && name == hs[i].0 {
            hs.update(i, (hs[i].0, value))
        } else {
            hs.insert(i, (name, value))
        },
    decreases i,
{
    if i == 0 {
        if hs.len() == 0 {
            assert(spec_hdr_insert_bytes(hs, name, value) =~= hs.insert(0, (name, value)));
        } else {
            lemma_lex_total(name, hs[0].0);
            lemma_lex_irrefl(name);
            if lex_lt(name, hs[0].0) {
                assert(seq![(name, value)] + hs =~= hs.insert(0, (name, value)));
            } else if name == hs[0].0 {
                assert(seq![(hs[0].0, value)] + hs.drop_first() =~= hs.update(0, (hs[0].0, value)));
            }
        }
    } else {
        let rest = hs.drop_first();
        assert(lex_lt(hs[0].0, name));
        lemma_lex_asym(hs[0].0, name);
        lemma_lex_irrefl(name);
        assert forall|k: int| 0 <= k < i - 1 implies lex_lt(#[trigger] rest[k].0, name) by {
            assert(rest[k] == hs[k + 1]);
        }
        lemma_hdr_insert_bytes_at(rest, name, value, i - 1);
        if i < hs.len() && name == hs[i].0 {
            assert(seq![hs[0]] + rest.update(i - 1, (rest[i - 1].0, value)) =~= hs.update(
                i,
                (hs[i].0, value),
            ));
        } else {
            assert(seq![hs[0]] + rest.insert(i - 1, (name, value)) =~= hs.insert(
                i,
                (name, value),
            ));
        }
    }
}

/// Writes `value` under `name` in an ordered raw-byte header map.
#[verifier::loop_isolation(false)]
fn hdr_insert_bytes(hs: &mut Vec<(Vec<u8>, Vec<u8>)>, name: Vec<u8>, value: Vec<u8>)
    ensures
        final(hs)@.map_values(|p: (Vec<u8>, Vec<u8>)| (p.0@, p.1@)) == spec_hdr_insert_bytes(
            old(hs)@.map_values(|p: (Vec<u8>, Vec<u8>)| (p.0@, p.1@)),
            name@,
            value@,
        ),
{
    let ghost f = |p: (Vec<u8>, Vec<u8>)| (p.0@, p.1@);
    let ghost pre = hs@.map_values(f);
    let n = hs.len();
    let mut i: usize = 0;
    while i < n
        invariant
            i <= n,
            n == hs@.len(),
            hs@ == old(hs)@,
            forall|k: int| 0 <= k < i as int ==> lex_lt(#[trigger] hs@[k].0@, name@),
        decreases n - i,
    {
        if !bytes_lt(hs[i].0.as_slice(), name.as_slice()) {
            break ;
        }
        i += 1;
    }
    proof {
        assert forall|k: int| 0 <= k < i as int implies lex_lt(#[trigger] pre[k].0, name@) by {
            assert(pre[k] == f(hs@[k]));
        }
        if (i as int) < pre.len() {
            assert(pre[i as int] == f(hs@[i as int]));
        }
        lemma_hdr_insert_bytes_at(pre, name@, value@, i as int);
    }
    if i < n && bytes_eq(name.as_slice(), hs[i].0.as_slice()) {
        hs[i].1 = value;
        proof {
            assert(hs@.map_values(f) =~= pre.update(i as int, (pre[i as int].0, value@)));
        }
    } else {
        hs.insert(i, (name, value));
        proof {
            assert(hs@.map_values(f) =~= pre.insert(i as int, (name@, value@)));
        }
    }
}

/// A found occurrence in a suffix is the occurrence in the whole sequence,
/// shifted.
pub proof fn lemma_find_sub_shift(s: Seq<u8>, pat: Seq<u8>, from: int, j: int)
    requires
        0 <= from <= s.len(),
        0 <= j,
    ensures
        find_sub(s.skip(from), pat, j) == match find_sub(s, pat, from + j) {
            Some(p) => Some(p - from),
            None => None::<int>,
        },
    decreases s.len() - from - j,
{
    let suf = s.skip(from);
    if !(pat.len() == 0 || j < 0 || j + pat.len() > suf.len()) {
        assert(suf.subrange(j, j + pat.len() as int) =~= s.subrange(
            from + j,
            from + j + pat.len() as int,
        ));
        if suf.subrange(j, j + pat.len() as int) != pat {
            lemma_find_sub_shift(s, pat, from, j + 1);
        }
    }
}

/// Splits `s` on every occurrence of `pat`.
#[verifier::loop_isolation(false)]
pub fn split_to_vec(s: &[u8], pat: &[u8]) -> (r: Vec<Vec<u8>>)
    requires
        pat@.len() > 0,
    ensures
        r@.map_values(|v: Vec<u8>| v@) == split_sub(s@, pat@),
{
    let ghost f = |v: Vec<u8>| v@;
    let _slen = s.len();
    let mut r: Vec<Vec<u8>> = Vec::new();
    let mut from: usize = 0;
    proof {
        assert(s@.skip(0) =~= s@);
        assert(r@.map_values(f) + split_sub(s@, pat@) =~= split_sub(s@, pat@));
    }
    loop
        invariant
            from <= s@.len(),
            split_sub(s@, pat@) == r@.map_values(f) + split_sub(s@.skip(from as int), pat@),
        decreases s@.len() - from,
    {
        let ghost pre = r@.map_values(f);
        proof {
            lemma_find_sub_shift(s@, pat@, from as int, 0);
        }
        match find_sub_at(s, pat, from) {
            None => {
                let piece = vstd::slice::slice_to_vec(vstd::slice::slice_subrange(
                    s,
                    from,
                    s.len(),
                ));
                proof {
                    assert(piece@ =~= s@.skip(from as int));
                }
                r.push(piece);
                proof {
                    assert(split_sub(s@.skip(from as int), pat@) == seq![s@.skip(from as int)]);
                    assert(r@.map_values(f) =~= pre + seq![s@.skip(from as int)]);
                    assert(pre + seq![s@.skip(from as int)] =~= split_sub(s@, pat@));
                }
                return r;
            },
            Some(p) => {
                let piece = vstd::slice::slice_to_vec(vstd::slice::slice_subrange(s, from, p));
                r.push(piece);
                let new_from = p + pat.len();
                proof {
                    let suf = s@.skip(from as int);
                    assert(suf.subrange(0, p - from as int) =~= s@.subrange(from as int, p as int));
                    assert(suf.skip(p - from as int + pat@.len() as int) =~= s@.skip(
                        new_from as int,
                    ));
                    assert(split_sub(suf, pat@) == seq![s@.subrange(from as int, p as int)]
                        + split_sub(s@.skip(new_from as int), pat@));
                    assert(r@.map_values(f) =~= pre + seq![s@.subrange(from as int, p as int)]);
                    assert(pre + seq![s@.subrange(from as int, p as int)] + split_sub(
                        s@.skip(new_from as int),
                        pat@,
                    ) =~= split_sub(s@, pat@));
                }
                from = new_from;
            },
        }
    }
}

/// ASCII whitespace, as the header-separator run after the colon accepts it.
pub open spec fn is_ws(b: u8) -> bool {
    b == 32 || (9 <= b <= 13)
}

/// The first position `>= i` at which a colon directly followed by
/// whitespace occurs.
pub open spec fn find_colon_ws(s: Seq<u8>, i: int) -> Option<int>
    decreases s.len() - i,
{
    if i < 0 || i + 2 > s.len() {
        None
    } else if s[i] == 58 && is_ws(s[i + 1]) {
        Some(i)
    } else {
        find_colon_ws(s, i + 1)
    }
}

/// The end of the whitespace run that starts at `j`.
pub open spec fn ws_end(s: Seq<u8>, j: int) -> int
    decreases s.len() - j,
{
    if j < 0 || j >= s.len() {
        j
    } else if is_ws(s[j]) {
        ws_end(s, j + 1)
    } else {
        j
    }
}

proof fn lemma_ws_end_range(s: Seq<u8>, j: int)
    requires
        0 <= j <= s.len(),
    ensures
        j <= ws_end(s, j) <= s.len(),
    decreases s.len() - j,
{
    if j < s.len() && is_ws(s[j]) {
        lemma_ws_end_range(s, j + 1);
    }
}

/// What one header line denotes: the name before the first colon-whitespace
/// separator and the value after it, provided no second separator follows
/// (the line must split into exactly two parts).
pub open spec fn spec_header_line(s: Seq<u8>) -> Option<(Seq<u8>, Seq<u8>)> {
    match find_colon_ws(s, 0) {
        None => None,
        Some(c) => {
            let e = ws_end(s, c + 1);
            if find_colon_ws(s, e) is Some {
                None
            } else {
                Some((s.subrange(0, c), s.skip(e)))
            }
        },
    }
}

/// Finds the first colon-whitespace separator at or after `from`.
#[verifier::loop_isolation(false)]
fn find_colon_ws_at(s: &[u8], from: usize) -> (r: Option<usize>)
    ensures
        match r {
            Some(c) => find_colon_ws(s@, from as int) == Some(c as int) && from <= c && c + 2
                <= s@.len(),
            None => find_colon_ws(s@, from as int) is None,
        },
{
    let n = s.len();
    if from > n || n - from < 2 {
        return None;
    }
    let mut i: usize = from;
    while i <= n - 2
        invariant
            from <= i,
            2 <= n,
            i <= n - 1,
            find_colon_ws(s@, from as int) == find_colon_ws(s@, i as int),
        decreases n - i,
    {
        let b = s[i];
        let b2 = s[i + 1];
        if b == 58 && (b2 == 32 || (9 <= b2 && b2 <= 13)) {
            return Some(i);
        }
        i += 1;
    }
    None
}

/// Finds the end of the whitespace run that starts at `j`.
#[verifier::loop_isolation(false)]
fn ws_end_at(s: &[u8], j: usize) -> (r: usize)
    requires
        j <= s@.len(),
    ensures
        r as int == ws_end(s@, j as int),
        j <= r <= s@.len(),
{
    let n = s.len();
    let mut k: usize = j;
    while k < n
        invariant
            j <= k <= n,
            ws_end(s@, j as int) == ws_end(s@, k as int),
        decreases n - k,
    {
        let b = s[k];
        if !(b == 32 || (9 <= b && b <= 13)) {
            return k;
        }
        k += 1;
    }
    k
}

/// Parses one header line into its name and value.
fn header_line(s: &[u8]) -> (r: Option<(Vec<u8>, Vec<u8>)>)
    ensures
        match r {
            Some((name, value)) => spec_header_line(s@) == Some((name@, value@)),
            None => spec_header_line(s@) is None,
        },
{
    let _slen = s.len();
    let c = match find_colon_ws_at(s, 0) {
        Some(c) => c,
        None => {
            return None;
        },
    };
    let e = ws_end_at(s, c + 1);
    if find_colon_ws_at(s, e).is_some() {
        return None;
    }
    let name = vstd::slice::slice_to_vec(vstd::slice::slice_subrange(s, 0, c));
    let value = vstd::slice::slice_to_vec(vstd::slice::slice_subrange(s, e, s.len()));
    proof {
        assert(value@ =~= s@.skip(ws_end(s@, c as int + 1)));
    }
    Some((name, value))
}

/// The header map the lines after the start line denote, or nothing when
/// some line is not a well-formed header.
pub open spec fn spec_fold_headers(
    acc: Seq<(Seq<u8>, Seq<u8>)>,
    ls: Seq<Seq<u8>>,
    i: int,
) -> Option<Seq<(Seq<u8>, Seq<u8>)>>
    decreases ls.len() - i,
{
    if i < 0 || i >= ls.len() {
        Some(acc)
    } else {
        match spec_header_line(ls[i]) {
            Some((n, v)) => spec_fold_headers(spec_hdr_insert_bytes(acc, n, v), ls, i + 1),
            None => None,
        }
    }
}

/// What parsing a concrete HTTP message yields: the three start-line fields
/// (split on single spaces), the ordered header map, and the body after the
/// first blank line; or nothing when the start line does not have exactly
/// three fields, some header line is malformed, or a second blank line
/// follows the body.
pub open spec fn spec_parse_http(input: Seq<u8>) -> Option<
    ((Seq<u8>, Seq<u8>, Seq<u8>), Seq<(Seq<u8>, Seq<u8>)>, Seq<u8>),
> {
    let sep = seq![13u8, 10u8, 13u8, 10u8];
    let head = match find_sub(input, sep, 0) {
        None => input,
        Some(p) => input.subrange(0, p),
    };
    let body = match find_sub(input, sep, 0) {
        None => Seq::<u8>::empty(),
        Some(p) => input.skip(p + 4),
    };
    if find_sub(body, sep, 0) is Some {
        None
    } else {
        let ls = split_sub(head, seq![13u8, 10u8]);
        let fields = split_sub(ls[0], seq![32u8]);
        if fields.len() != 3 {
            None
        } else {
            match spec_fold_headers(Seq::empty(), ls, 1) {
                Some(hs) => Some(((fields[0], fields[1], fields[2]), hs, body)),
                None => None,
            }
        }
    }
}

/// Splitting on a nonempty pattern yields at least one part.
proof fn lemma_split_sub_nonempty(s: Seq<u8>, pat: Seq<u8>)
    ensures
        split_sub(s, pat).len() >= 1,
{
    if pat.len() != 0 && find_sub(s, pat, 0) is Some {
    }
}

impl HttpData {
    /// Parses a concrete HTTP message: splits the head from the body at the
    /// first blank line, the start line into its three fields, and each
    /// further head line into a header name and value at its
    /// colon-plus-whitespace separator.  Fails with `MalformedHttp` exactly
    /// when the message does not have that shape.
    #[verifier::loop_isolation(false)]
    pub fn parse_input(&self, input: &[u8]) -> (r: Result<HttpMessage, ExtractError>)
        ensures
            match r {
                Ok(msg) => spec_parse_http(input@) == Some(
                    (
                        (msg.start1@, msg.start2@, msg.start3@),
                        msg.headers@.map_values(|p: (Vec<u8>, Vec<u8>)| (p.0@, p.1@)),
                        msg.body@,
                    ),
                ),
                Err(e) => spec_parse_http(input@) is None && e == ExtractError::MalformedHttp,
            },
    {
        let ghost f = |p: (Vec<u8>, Vec<u8>)| (p.0@, p.1@);
        let mut sep4: Vec<u8> = Vec::new();
        sep4.push(13);
        sep4.push(10);
        sep4.push(13);
        sep4.push(10);
        let mut crlf: Vec<u8> = Vec::new();
        crlf.push(13);
        crlf.push(10);
        let mut sp: Vec<u8> = Vec::new();
        sp.push(32);
        proof {
            assert(sep4@ =~= seq![13u8, 10u8, 13u8, 10u8]);
            assert(crlf@ =~= seq![13u8, 10u8]);
            assert(sp@ =~= seq![32u8]);
        }
        let n = input.len();
        let (head, body): (Vec<u8>, Vec<u8>) = match find_sub_at(input, sep4.as_slice(), 0) {
            None => (vstd::slice::slice_to_vec(input), Vec::new()),
            Some(p) => (
                vstd::slice::slice_to_vec(vstd::slice::slice_subrange(input, 0, p)),
                vstd::slice::slice_to_vec(vstd::slice::slice_subrange(input, p + 4, n)),
            ),
        };
        proof {
            assert(input@.skip(0) =~= input@);
            if find_sub(input@, sep4@, 0) is Some {
                let p = find_sub(input@, sep4@, 0)->Some_0;
                assert(body@ =~= input@.skip(p + 4));
            } else {
                assert(body@ =~= Seq::<u8>::empty());
            }
        }
        if find_sub_at(body.as_slice(), sep4.as_slice(), 0).is_some() {
            return Err(ExtractError::MalformedHttp);
        }
        let lines = split_to_vec(head.as_slice(), crlf.as_slice());
        proof {
            lemma_split_sub_nonempty(head@, crlf@);
        }
        let mut fields = split_to_vec(lines[0].as_slice(), sp.as_slice());
        if fields.len() != 3 {
            return Err(ExtractError::MalformedHttp);
        }
        let ghost ls = lines@.map_values(|v: Vec<u8>| v@);
        let mut hs: Vec<(Vec<u8>, Vec<u8>)> = Vec::new();
        let nl = lines.len();
        let mut i: usize = 1;
        proof {
            assert(hs@.map_values(f) =~= Seq::<(Seq<u8>, Seq<u8>)>::empty());
        }
        while i < nl
            invariant
                1 <= i <= nl,
                spec_fold_headers(Seq::empty(), ls, 1) == spec_fold_headers(
                    hs@.map_values(f),
                    ls,
                    i as int,
                ),
            decreases nl - i,
        {
            match header_line(lines[i].as_slice()) {
                Some((name, value)) => {
                    hdr_insert_bytes(&mut hs, name, value);
                },
                None => {
                    return Err(ExtractError::MalformedHttp);
                },
            }
            i += 1;
        }
        let start1 = fields.remove(0);
        let start2 = fields.remove(0);
        let start3 = fields.remove(0);
        Ok(HttpMessage { start1, start2, start3, headers: hs, body })
    }
}

/// How many windows of `data` starting at or after `i` hold `pat`.
pub open spec fn spec_count_matches(data: Seq<u8>, pat: Seq<u8>, i: int) -> int
    decreases data.len() - i,
{
    if pat.len() == 0 || i < 0 || i + pat.len() > data.len() {
        0
    } else {
        (if data.subrange(i, i + pat.len() as int) == pat {
            1int
        } else {
            0int
        }) + spec_count_matches(data, pat, i + 1)
    }
}

/// The line a locked header must show in the byte stream: its name, a colon
/// and a space, and its value.
pub open spec fn spec_header_pattern(name: Seq<u8>, value: Seq<u8>) -> Seq<u8> {
    name + seq![58u8, 32u8] + value
}

/// Counts the positions at which a locked header's name/value line occurs in
/// the byte stream.  The generated lock template accumulates exactly one
/// match flag per position into `hasMatchedHeaderValue` and asserts the sum
/// nonzero, so a header whose count is zero makes the circuit unsatisfiable.
#[verifier::loop_isolation(false)]
pub fn header_match_count(data: &[u8], name: &[u8], value: &[u8]) -> (r: usize)
    ensures
        r as int == spec_count_matches(data@, spec_header_pattern(name@, value@), 0),
{
    let mut pat: Vec<u8> = vstd::slice::slice_to_vec(name);
    pat.push(58);
    pat.push(32);
    let mut value_vec = vstd::slice::slice_to_vec(value);
    pat.append(&mut value_vec);
    proof {
        assert(pat@ =~= spec_header_pattern(name@, value@));
    }
    let n = data.len();
    let m = pat.len();
    let mut count: usize = 0;
    let mut i: usize = 0;
    if m > n {
        return 0;
    }
    while i <= n - m
        invariant
            m <= n,
            0 <= i <= n - m + 1,
            count <= i,
            count as int + spec_count_matches(data@, pat@, i as int) == spec_count_matches(
                data@,
                pat@,
                0,
            ),
        decreases n - i,
    {
        if bytes_eq(vstd::slice::slice_subrange(data, i, i + m), pat.as_slice()) {
            count += 1;
        }
        i += 1;
    }
    count
}

/// The parameter names of the locked headers: a name length and a value
/// length per header, in map order.
pub open spec fn spec_header_param_names(h: int) -> Seq<Seq<char>>
    decreases h,
{
    if h <= 0 {
        Seq::empty()
    } else {
        spec_header_param_names(h - 1) + seq![
            "headerNameLen"@ + spec_dec(h),
            "headerValueLen"@ + spec_dec(h),
        ]
    }
}

/// The full parameter-name list of the generated lock template.
pub open spec fn spec_http_params(d: HttpData) -> Seq<Seq<char>> {
    match d {
        HttpData::Request(r) => seq!["DATA_BYTES"@, "methodLen"@, "targetLen"@, "versionLen"@]
            + spec_header_param_names(r.headers@.len() as int),
        HttpData::Response(r) => seq![
            "DATA_BYTES"@,
            "maxContentLength"@,
            "versionLen"@,
            "statusLen"@,
            "messageLen"@,
        ] + spec_header_param_names(r.headers@.len() as int),
    }
}

/// The input-signal names of the locked headers.
pub open spec fn spec_header_input_names(h: int) -> Seq<Seq<char>>
    decreases h,
{
    if h <= 0 {
        Seq::empty()
    } else {
        spec_header_input_names(h - 1) + seq!["header"@ + spec_dec(h), "value"@ + spec_dec(h)]
    }
}

/// The full input-signal-name list of the generated lock template.
pub open spec fn spec_http_inputs(d: HttpData) -> Seq<Seq<char>> {
    match d {
        HttpData::Request(_) => seq!["data"@, "method"@, "target"@, "version"@]
            + spec_header_input_names(d.spec_headers().len() as int),
        HttpData::Response(_) => seq!["data"@, "version"@, "status"@, "message"@]
            + spec_header_input_names(d.spec_headers().len() as int),
    }
}

/// The two numeric parameters a locked header contributes: its name's and
/// its value's byte length, in map order.
pub open spec fn spec_header_len_params(hs: Seq<(String, String)>, i: int) -> Seq<int>
    decreases i,
{
    if i <= 0 {
        Seq::empty()
    } else {
        spec_header_len_params(hs, i - 1) + seq![byte_len(hs[i - 1].0@), byte_len(hs[i - 1].1@)]
    }
}

/// The parameter vector the generated lock template is instantiated with for
/// one concrete message: data length, the start-line field lengths (and, for
/// a response, the body length bound first), then both byte lengths of each
/// locked header; or `MalformedHttp` when the message does not parse.
pub open spec fn spec_http_populate_params(d: HttpData, input: Seq<u8>) -> Result<
    Seq<int>,
    ExtractError,
> {
    match spec_parse_http(input) {
        None => Err(ExtractError::MalformedHttp),
        Some((start, hs, body)) => Ok(
            match d {
                HttpData::Request(r) => seq![
                    input.len() as int,
                    byte_len(r.method@),
                    byte_len(r.target@),
                    byte_len(r.version@),
                ] + spec_header_len_params(r.headers@, r.headers@.len() as int),
                HttpData::Response(r) => seq![
                    input.len() as int,
                    body.len() as int,
                    byte_len(r.version@),
                    byte_len(r.status@),
                    byte_len(r.message@),
                ] + spec_header_len_params(r.headers@, r.headers@.len() as int),
            },
        ),
    }
}

pub proof fn lemma_header_param_names_len(h: int)
    requires
        0 <= h,
    ensures
        spec_header_param_names(h).len() == 2 * h,
    decreases h,
{
    if h > 0 {
        lemma_header_param_names_len(h - 1);
    }
}

pub proof fn lemma_header_len_params_len(hs: Seq<(String, String)>, i: int)
    requires
        0 <= i,
    ensures
        spec_header_len_params(hs, i).len() == 2 * i,
    decreases i,
{
    if i > 0 {
        lemma_header_len_params_len(hs, i - 1);
    }
}

/// The central arity invariant of the HTTP side: whenever a parameter vector
/// is derived for a message, it has exactly one entry per parameter name of
/// the generated lock template.
pub proof fn lemma_http_params_arity(d: HttpData, input: Seq<u8>)
    ensures
        match spec_http_populate_params(d, input) {
            Ok(v) => v.len() == spec_http_params(d).len(),
            Err(_) => true,
        },
{
    lemma_header_param_names_len(d.spec_headers().len() as int);
    lemma_header_len_params_len(d.spec_headers(), d.spec_headers().len() as int);
}

/// The name of the lock template a shape selects.
pub open spec fn spec_http_template_name(d: HttpData) -> Seq<char> {
    match d {
        HttpData::Request(_) => "LockHTTPRequest"@,
        HttpData::Response(_) => "LockHTTPResponse"@,
    }
}

impl HttpData {
    /// The ordered header pairs of either shape, as fresh strings.
    #[verifier::loop_isolation(false)]
    pub fn headers(&self) -> (r: Vec<(String, String)>)
        ensures
            r@.map_values(|p: (String, String)| (p.0@, p.1@)) == self.spec_headers().map_values(
                |p: (String, String)| (p.0@, p.1@),
            ),
    {
        let ghost f = |p: (String, String)| (p.0@, p.1@);
        let hs = match self {
            HttpData::Request(req) => &req.headers,
            HttpData::Response(res) => &res.headers,
        };
        let n = hs.len();
        let mut r: Vec<(String, String)> = Vec::new();
        let mut i: usize = 0;
        while i < n
            invariant
                i <= n,
                r@.map_values(f) == hs@.map_values(f).subrange(0, i as int),
            decreases n - i,
        {
            r.push((hs[i].0.clone(), hs[i].1.clone()));
            proof {
                assert(r@.map_values(f) =~= hs@.map_values(f).subrange(0, i as int + 1));
            }
            i += 1;
        }
        proof {
            assert(hs@.map_values(f).subrange(0, n as int) =~= hs@.map_values(f));
        }
        r
    }

    /// The parameter names of the lock template this shape generates.
    #[verifier::loop_isolation(false)]
    pub fn params(&self) -> (r: Vec<String>)
        ensures
            r@.map_values(|s: String| s@) == spec_http_params(*self),
    {
        let ghost f = |s: String| s@;
        let mut r: Vec<String> = Vec::new();
        r.push(String::from_str("DATA_BYTES"));
        match self {
            HttpData::Request(_) => {
                r.push(String::from_str("methodLen"));
                r.push(String::from_str("targetLen"));
                r.push(String::from_str("versionLen"));
            },
            HttpData::Response(_) => {
                r.push(String::from_str("maxContentLength"));
                r.push(String::from_str("versionLen"));
                r.push(String::from_str("statusLen"));
                r.push(String::from_str("messageLen"));
            },
        }
        let ghost base = r@.map_values(f);
        proof {
            assert(base + spec_header_param_names(0) =~= base);
        }
        let hs = match self {
            HttpData::Request(req) => &req.headers,
            HttpData::Response(res) => &res.headers,
        };
        let n = hs.len();
        let mut i: usize = 0;
        while i < n
            invariant
                i <= n,
                r@.map_values(f) == base + spec_header_param_names(i as int),
            decreases n - i,
        {
            let ghost pre = r@.map_values(f);
            let mut first = String::from_str("headerNameLen");
            append_dec(&mut first, i + 1);
            let mut second = String::from_str("headerValueLen");
            append_dec(&mut second, i + 1);
            let ghost fv = first@;
            let ghost sv = second@;
            r.push(first);
            r.push(second);
            proof {
                assert(r@.map_values(f) =~= pre + seq![fv, sv]);
                assert(pre + seq![fv, sv] =~= base + spec_header_param_names(i as int + 1));
            }
            i += 1;
        }
        proof {
            assert(r@.map_values(f) =~= spec_http_params(*self));
        }
        r
    }

    /// The input-signal names of the lock template this shape generates.
    #[verifier::loop_isolation(false)]
    pub fn inputs(&self) -> (r: Vec<String>)
        ensures
            r@.map_values(|s: String| s@) == spec_http_inputs(*self),
    {
        let ghost f = |s: String| s@;
        let mut r: Vec<String> = Vec::new();
        r.push(String::from_str("data"));
        match self {
            HttpData::Request(_) => {
                r.push(String::from_str("method"));
                r.push(String::from_str("target"));
                r.push(String::from_str("version"));
            },
            HttpData::Response(_) => {
                r.push(String::from_str("version"));
                r.push(String::from_str("status"));
                r.push(String::from_str("message"));
            },
        }
        let ghost base = r@.map_values(f);
        proof {
            assert(base + spec_header_input_names(0) =~= base);
        }
        let hs = match self {
            HttpData::Request(req) => &req.headers,
            HttpData::Response(res) => &res.headers,
        };
        let n = hs.len();
        let mut i: usize = 0;
        while i < n
            invariant
                i <= n,
                r@.map_values(f) == base + spec_header_input_names(i as int),
            decreases n - i,
        {
            let ghost pre = r@.map_values(f);
            let mut first = String::from_str("header");
            append_dec(&mut first, i + 1);
            let mut second = String::from_str("value");
            append_dec(&mut second, i + 1);
            let ghost fv = first@;
            let ghost sv = second@;
            r.push(first);
            r.push(second);
            proof {
                assert(r@.map_values(f) =~= pre + seq![fv, sv]);
                assert(pre + seq![fv, sv] =~= base + spec_header_input_names(i as int + 1));
            }
            i += 1;
        }
        proof {
            assert(r@.map_values(f) =~= spec_http_inputs(*self));
        }
        r
    }

    /// Computes the parameter vector for one concrete message, in the exact
    /// order `params` names the parameters.
    #[verifier::loop_isolation(false)]
    pub fn populate_params(&self, input: &[u8]) -> (r: Result<Vec<usize>, ExtractError>)
        ensures
            match r {
                Ok(v) => spec_http_populate_params(*self, input@) == Ok::<Seq<int>, ExtractError>(
                    v@.map_values(|x: usize| x as int),
                ),
                Err(e) => spec_http_populate_params(*self, input@) == Err::<Seq<int>, ExtractError>(
                    e,
                ),
            },
    {
        let msg = match self.parse_input(input) {
            Ok(m) => m,
            Err(e) => {
                return Err(e);
            },
        };
        let ghost f = |x: usize| x as int;
        let mut params: Vec<usize> = Vec::new();
        params.push(input.len());
        match self {
            HttpData::Request(req) => {
                params.push(req.method.as_str().len());
                params.push(req.target.as_str().len());
                params.push(req.version.as_str().len());
            },
            HttpData::Response(res) => {
                params.push(msg.body.len());
                params.push(res.version.as_str().len());
                params.push(res.status.as_str().len());
                params.push(res.message.as_str().len());
            },
        }
        let ghost base = params@.map_values(f);
        let hs = match self {
            HttpData::Request(req) => &req.headers,
            HttpData::Response(res) => &res.headers,
        };
        proof {
            assert(base + spec_header_len_params(hs@, 0) =~= base);
        }
        let n = hs.len();
        let mut i: usize = 0;
        while i < n
            invariant
                i <= n,
                params@.map_values(f) == base + spec_header_len_params(hs@, i as int),
            decreases n - i,
        {
            let ghost pre = params@.map_values(f);
            params.push(hs[i].0.as_str().len());
            params.push(hs[i].1.as_str().len());
            proof {
                assert(params@.map_values(f) =~= pre + seq![
                    byte_len(hs@[i as int].0@),
                    byte_len(hs@[i as int].1@),
                ]);
            }
            i += 1;
        }
        proof {
            assert(params@.map_values(f) =~= spec_http_populate_params(
                *self,
                input@,
            )->Ok_0);
        }
        Ok(params)
    }

    /// Builds the registry record for this shape and message: the template
    /// name the shape selects, the file path under `main/`, and the
    /// parameter vector of `populate_params`.
    pub fn build_circuit_config(&self, input: &[u8], codegen_filename: &str) -> (r: Result<
        CircomkitCircuitConfig,
        ExtractError,
    >)
        ensures
            match r {
                Ok(c) => {
                    &&& spec_http_populate_params(*self, input@) == Ok::<Seq<int>, ExtractError>(
                        c.params@.map_values(|x: usize| x as int),
                    )
                    &&& c.file@ == "main/"@ + codegen_filename@
                    &&& c.template@ == spec_http_template_name(*self)
                },
                Err(e) => spec_http_populate_params(*self, input@) == Err::<Seq<int>, ExtractError>(
                    e,
                ),
            },
    {
        let params = match self.populate_params(input) {
            Ok(p) => p,
            Err(e) => {
                return Err(e);
            },
        };
        let template = match self {
            HttpData::Request(_) => String::from_str("LockHTTPRequest"),
            HttpData::Response(_) => String::from_str("LockHTTPResponse"),
        };
        let mut file = String::from_str("main/");
        file.append(codegen_filename);
        Ok(CircomkitCircuitConfig { file, template, params })
    }
}

/// The text after appending, to `acc`, the input-signal declarations of the
/// first `h` locked headers.
pub open spec fn spec_header_inputs(acc: Seq<char>, h: int) -> Seq<char>
    decreases h,
{
    if h <= 0 {
        acc
    } else {
        spec_header_inputs(acc, h - 1) + "    signal input header"@ + spec_dec(h)
            + "[headerNameLen"@ + spec_dec(h) + "];\n    signal input value"@ + spec_dec(h)
            + "[headerValueLen"@ + spec_dec(h) + "];\n"@
    }
}

#[verifier::loop_isolation(false)]
pub(crate) fn emit_header_inputs(buf: &mut String, h: usize)
    ensures
        final(buf)@ == spec_header_inputs(old(buf)@, h as int),
{
    let mut i: usize = 0;
    while i < h
        invariant
            i <= h,
            buf@ == spec_header_inputs(old(buf)@, i as int),
        decreases h - i,
    {
        buf.append("    signal input header");
        append_dec(buf, i + 1);
        buf.append("[headerNameLen");
        append_dec(buf, i + 1);
        buf.append("];\n    signal input value");
        append_dec(buf, i + 1);
        buf.append("[headerValueLen");
        append_dec(buf, i + 1);
        buf.append("];\n");
        i += 1;
    }
}

/// The text after appending the match-signal and accumulator declarations of
/// the first `h` locked headers.
pub open spec fn spec_header_match_decls(acc: Seq<char>, h: int) -> Seq<char>
    decreases h,
{
    if h <= 0 {
        acc
    } else {
        spec_header_match_decls(acc, h - 1) + "    signal headerNameValueMatch"@ + spec_dec(h)
            + "[DATA_BYTES];\n    var hasMatchedHeaderValue"@ + spec_dec(h) + " = 0;\n\n"@
    }
}

#[verifier::loop_isolation(false)]
fn emit_header_match_decls(buf: &mut String, h: usize)
    ensures
        final(buf)@ == spec_header_match_decls(old(buf)@, h as int),
{
    let mut i: usize = 0;
    while i < h
        invariant
            i <= h,
            buf@ == spec_header_match_decls(old(buf)@, i as int),
        decreases h - i,
    {
        buf.append("    signal headerNameValueMatch");
        append_dec(buf, i + 1);
        buf.append("[DATA_BYTES];\n    var hasMatchedHeaderValue");
        append_dec(buf, i + 1);
        buf.append(" = 0;\n\n");
        i += 1;
    }
}

/// The text after appending the first-position header-match assignments of
/// the first `h` locked headers.
pub open spec fn spec_header_init_match(acc: Seq<char>, h: int) -> Seq<char>
    decreases h,
{
    if h <= 0 {
        acc
    } else {
        spec_header_init_match(acc, h - 1) + "    headerNameValueMatch"@ + spec_dec(h)
            + "[0]    <== HeaderFieldNameValueMatch(DATA_BYTES, headerNameLen"@ + spec_dec(h)
            + ", headerValueLen"@ + spec_dec(h) + ")(data, header"@ + spec_dec(h) + ", value"@
            + spec_dec(h) + ", 0);\n    hasMatchedHeaderValue"@ + spec_dec(h)
            + "      += headerNameValueMatch"@ + spec_dec(h) + "[0];\n"@
    }
}

#[verifier::loop_isolation(false)]
fn emit_header_init_match(buf: &mut String, h: usize)
    ensures
        final(buf)@ == spec_header_init_match(old(buf)@, h as int),
{
    let mut i: usize = 0;
    while i < h
        invariant
            i <= h,
            buf@ == spec_header_init_match(old(buf)@, i as int),
        decreases h - i,
    {
        buf.append("    headerNameValueMatch");
        append_dec(buf, i + 1);
        buf.append("[0]    <== HeaderFieldNameValueMatch(DATA_BYTES, headerNameLen");
        append_dec(buf, i + 1);
        buf.append(", headerValueLen");
        append_dec(buf, i + 1);
        buf.append(")(data, header");
        append_dec(buf, i + 1);
        buf.append(", value");
        append_dec(buf, i + 1);
        buf.append(", 0);\n    hasMatchedHeaderValue");
        append_dec(buf, i + 1);
        buf.append("      += headerNameValueMatch");
        append_dec(buf, i + 1);
        buf.append("[0];\n");
        i += 1;
    }
}

/// The text after appending the per-position header-match assignments of the
/// first `h` locked headers inside the byte loop.
pub open spec fn spec_header_loop_match(acc: Seq<char>, h: int) -> Seq<char>
    decreases h,
{
    if h <= 0 {
        acc
    } else {
        spec_header_loop_match(acc, h - 1) + "        headerNameValueMatch"@ + spec_dec(h)
            + "[data_idx] <== HeaderFieldNameValueMatch(DATA_BYTES, headerNameLen"@ + spec_dec(h)
            + ", headerValueLen"@ + spec_dec(h) + ")(data, header"@ + spec_dec(h) + ", value"@
            + spec_dec(h) + ", data_idx);\n        hasMatchedHeaderValue"@ + spec_dec(h)
            + " += headerNameValueMatch"@ + spec_dec(h) + "[data_idx];\n"@
    }
}

#[verifier::loop_isolation(false)]
fn emit_header_loop_match(buf: &mut String, h: usize)
    ensures
        final(buf)@ == spec_header_loop_match(old(buf)@, h as int),
{
    let mut i: usize = 0;
    while i < h
        invariant
            i <= h,
            buf@ == spec_header_loop_match(old(buf)@, i as int),
        decreases h - i,
    {
        buf.append("        headerNameValueMatch");
        append_dec(buf, i + 1);
        buf.append("[data_idx] <== HeaderFieldNameValueMatch(DATA_BYTES, headerNameLen");
        append_dec(buf, i + 1);
        buf.append(", headerValueLen");
        append_dec(buf, i + 1);
        buf.append(")(data, header");
        append_dec(buf, i + 1);
        buf.append(", value");
        append_dec(buf, i + 1);
        buf.append(", data_idx);\n        hasMatchedHeaderValue");
        append_dec(buf, i + 1);
        buf.append(" += headerNameValueMatch");
        append_dec(buf, i + 1);
        buf.append("[data_idx];\n");
        i += 1;
    }
}

/// The text after appending the post-loop assertions that every locked
/// header matched somewhere in the stream.
pub open spec fn spec_header_asserts(acc: Seq<char>, h: int) -> Seq<char>
    decreases h,
{
    if h <= 0 {
        acc
    } else {
        spec_header_asserts(acc, h - 1) + "    hasMatchedHeaderValue"@ + spec_dec(h) + " === 1;\n"@
    }
}

#[verifier::loop_isolation(false)]
fn emit_header_asserts(buf: &mut String, h: usize)
    ensures
        final(buf)@ == spec_header_asserts(old(buf)@, h as int),
{
    let mut i: usize = 0;
    while i < h
        invariant
            i <= h,
            buf@ == spec_header_asserts(old(buf)@, i as int),
        decreases h - i,
    {
        buf.append("    hasMatchedHeaderValue");
        append_dec(buf, i + 1);
        buf.append(" === 1;\n");
        i += 1;
    }
}

/// The text after appending the comment-block dump of the locked headers.
pub open spec fn spec_http_dump_headers(acc: Seq<char>, hs: Seq<(String, String)>, i: int) -> Seq<
    char,
>
    decreases i,
{
    if i <= 0 {
        acc
    } else {
        spec_http_dump_headers(acc, hs, i - 1) + "        (\""@ + hs[i - 1].0@ + "\", \""@
            + hs[i - 1].1@ + "\"),\n"@
    }
}

/// The comment-block dump of the locked shape that leads the generated file.
pub open spec fn spec_http_dump(d: HttpData) -> Seq<char> {
    match d {
        HttpData::Request(r) => spec_http_dump_headers(
            Seq::<char>::empty() + "Request {\n    method: \""@ + r.method@ + "\",\n    target: \""@
                + r.target@ + "\",\n    version: \""@ + r.version@ + "\",\n    headers: [\n"@,
            r.headers@,
            r.headers@.len() as int,
        ) + "    ],\n}"@,
        HttpData::Response(r) => spec_http_dump_headers(
            Seq::<char>::empty() + "Response {\n    version: \""@ + r.version@
                + "\",\n    status: \""@ + r.status@ + "\",\n    message: \""@ + r.message@
                + "\",\n    headers: [\n"@,
            r.headers@,
            r.headers@.len() as int,
        ) + "    ],\n}"@,
    }
}

#[verifier::loop_isolation(false)]
fn emit_http_dump_headers(buf: &mut String, hs: &Vec<(String, String)>)
    ensures
        final(buf)@ == spec_http_dump_headers(old(buf)@, hs@, hs@.len() as int),
{
    let n = hs.len();
    let mut i: usize = 0;
    while i < n
        invariant
            i <= n,
            buf@ == spec_http_dump_headers(old(buf)@, hs@, i as int),
        decreases n - i,
    {
        buf.append("        (\"");
        buf.append(hs[i].0.as_str());
        buf.append("\", \"");
        buf.append(hs[i].1.as_str());
        buf.append("\"),\n");
        i += 1;
    }
}

/// Appends the comment-block dump of the locked shape.
fn emit_http_dump(buf: &mut String, data: &HttpData)
    ensures
        final(buf)@ == old(buf)@ + spec_http_dump(*data),
{
    let ghost pre = buf@;
    match data {
        HttpData::Request(r) => {
            buf.append("Request {\n    method: \"");
            buf.append(r.method.as_str());
            buf.append("\",\n    target: \"");
            buf.append(r.target.as_str());
            buf.append("\",\n    version: \"");
            buf.append(r.version.as_str());
            buf.append("\",\n    headers: [\n");
            proof {
                assert(buf@ =~= pre + (Seq::<char>::empty() + "Request {\n    method: \""@
                    + r.method@ + "\",\n    target: \""@ + r.target@ + "\",\n    version: \""@
                    + r.version@ + "\",\n    headers: [\n"@));
            }
            let ghost base = Seq::<char>::empty() + "Request {\n    method: \""@ + r.method@
                + "\",\n    target: \""@ + r.target@ + "\",\n    version: \""@ + r.version@
                + "\",\n    headers: [\n"@;
            emit_http_dump_headers(buf, &r.headers);
            proof {
                lemma_dump_headers_prefix(pre, base, r.headers@, r.headers@.len() as int);
            }
            buf.append("    ],\n}");
        },
        HttpData::Response(r) => {
            buf.append("Response {\n    version: \"");
            buf.append(r.version.as_str());
            buf.append("\",\n    status: \"");
            buf.append(r.status.as_str());
            buf.append("\",\n    message: \"");
            buf.append(r.message.as_str());
            buf.append("\",\n    headers: [\n");
            proof {
                assert(buf@ =~= pre + (Seq::<char>::empty() + "Response {\n    version: \""@
                    + r.version@ + "\",\n    status: \""@ + r.status@ + "\",\n    message: \""@
                    + r.message@ + "\",\n    headers: [\n"@));
            }
            let ghost base = Seq::<char>::empty() + "Response {\n    version: \""@ + r.version@
                + "\",\n    status: \""@ + r.status@ + "\",\n    message: \""@ + r.message@
                + "\",\n    headers: [\n"@;
            emit_http_dump_headers(buf, &r.headers);
            proof {
                lemma_dump_headers_prefix(pre, base, r.headers@, r.headers@.len() as int);
            }
            buf.append("    ],\n}");
        },
    }
}

/// Dumping headers onto `pre + base` yields `pre` followed by the dump onto
/// `base` alone.
proof fn lemma_dump_headers_prefix(pre: Seq<char>, base: Seq<char>, hs: Seq<(String, String)>, i: int)
    ensures
        spec_http_dump_headers(pre + base, hs, i) == pre + spec_http_dump_headers(base, hs, i),
    decreases i,
{
    if i > 0 {
        lemma_dump_headers_prefix(pre, base, hs, i - 1);
        assert((pre + spec_http_dump_headers(base, hs, i - 1)) + ("        (\""@ + hs[i - 1].0@
            + "\", \""@ + hs[i - 1].1@ + "\"),\n"@) =~= pre + (spec_http_dump_headers(base, hs, i - 1)
            + ("        (\""@ + hs[i - 1].0@ + "\", \""@ + hs[i - 1].1@ + "\"),\n"@)));
    }
}

/// The complete source text of the generated HTTP lock circuit for one
/// locked shape: the comment-block dump, then a template that checks the
/// start-line fields and every locked header against the byte stream, and,
/// for a response, extracts the body.
pub open spec fn spec_http_circuit(d: HttpData, debug: bool) -> Seq<char> {
    let h = d.spec_headers().len() as int;
    let req = d is Request;
    let t = Seq::<char>::empty() + "/*\n"@ + spec_http_dump(d)
        + "\n*/\npragma circom 2.1.9;\n\ninclude \"../http/interpreter.circom\";\ninclude \"../http/parser/machine.circom\";\ninclude \"../utils/bytes.circom\";\ninclude \"../utils/search.circom\";\ninclude \"circomlib/circuits/gates.circom\";\ninclude \"@zk-email/circuits/utils/array.circom\";\n\ntemplate "@
        + spec_http_template_name(d) + "("@ + crate::text::spec_join(spec_http_params(d), ", "@)
        + ") {"@ + "\n    // Raw HTTP bytestream\n    signal input data[DATA_BYTES];\n"@;
    let t = if req {
        t
            + "\n    // Request line attributes\n    signal input method[methodLen];\n    signal input target[targetLen];\n    signal input version[versionLen];\n\n"@
    } else {
        t
            + "\n    // Status line attributes\n    signal input version[versionLen];\n    signal input status[statusLen];\n    signal input message[messageLen];\n\n"@
    };
    let t = spec_header_inputs(t + "    // Header names and values to lock\n"@, h);
    let t = if req {
        t
    } else {
        t
            + "\n    // Set up mask bits for where the body of response lies\n    signal output body[maxContentLength];\n\n    signal bodyMask[DATA_BYTES];\n"@
    };
    let t = if req {
        t
            + "\n    // Check first method byte\n    signal methodIsEqual[methodLen];\n    methodIsEqual[0] <== IsEqual()([data[0],method[0]]);\n    methodIsEqual[0] === 1;\n\n    // Setup to check target and version bytes\n    signal startLineMask[DATA_BYTES];\n    signal targetMask[DATA_BYTES];\n    signal versionMask[DATA_BYTES];\n\n    var target_start_counter = 0;\n    var target_end_counter   = 0;\n    var version_end_counter  = 0;\n"@
    } else {
        t
            + "\n    // Check first version byte\n    signal versionIsEqual[versionLen];\n    versionIsEqual[0] <== IsEqual()([data[0],version[0]]);\n    versionIsEqual[0] === 1;\n\n    // Setup to check status and message bytes\n    signal startLineMask[DATA_BYTES];\n    signal statusMask[DATA_BYTES];\n    signal messageMask[DATA_BYTES];\n\n    var status_start_counter = 0;\n    var status_end_counter   = 0;\n    var message_end_counter  = 0;\n"@
    };
    let t = spec_header_match_decls(t, h);
    let t = t
        + "    component State[DATA_BYTES];\n    State[0]                       = HttpStateUpdate();\n    State[0].byte                <== data[0];\n    State[0].parsing_start       <== 1;\n    State[0].parsing_header      <== 0;\n    State[0].parsing_field_name  <== 0;\n    State[0].parsing_field_value <== 0;\n    State[0].parsing_body        <== 0;\n    State[0].line_status         <== 0;\n"@;
    let t = if req {
        t
    } else {
        t
            + "\n    // Mask if parser is in the body of response\n    bodyMask[0] <== data[0] * State[0].next_parsing_body;\n"@
    };
    let t = if req {
        t
            + "\n    // Check remaining method bytes\n    // if(data_idx < methodLen) {\n    //     methodIsEqual[data_idx] <== IsEqual()([data[data_idx], method[data_idx]]);\n    //     methodIsEqual[data_idx] === 1;\n    // }\n\n    // Get the target bytes\n    startLineMask[0]     <== inStartLine()(State[0].next_parsing_start);\n    targetMask[0]        <== inStartMiddle()(State[0].next_parsing_start);\n    versionMask[0]       <== inStartEnd()(State[0].next_parsing_start);\n    target_start_counter += startLineMask[0] - targetMask[0] - versionMask[0];\n\n    // Get the version bytes\n    target_end_counter          += startLineMask[0] - versionMask[0];\n    version_end_counter         += startLineMask[0];\n"@
    } else {
        t
            + "\n    // Check remaining version bytes\n    // if(data_idx < versionLen) {\n    //     versionIsEqual[data_idx] <== IsEqual()([data[data_idx], version[data_idx]]);\n    //     versionIsEqual[data_idx] === 1;\n    // }\n\n    // Get the status bytes\n    startLineMask[0]     <== inStartLine()(State[0].next_parsing_start);\n    statusMask[0]        <== inStartMiddle()(State[0].next_parsing_start);\n    messageMask[0]       <== inStartEnd()(State[0].next_parsing_start);\n    status_start_counter += startLineMask[0] - statusMask[0] - messageMask[0];\n\n    // Get the message bytes\n    status_end_counter          += startLineMask[0] - messageMask[0];\n    message_end_counter         += startLineMask[0];\n"@
    };
    let t = spec_header_init_match(t, h);
    let t = t
        + "\n    for(var data_idx = 1; data_idx < DATA_BYTES; data_idx++) {\n        State[data_idx]                       = HttpStateUpdate();\n        State[data_idx].byte                <== data[data_idx];\n        State[data_idx].parsing_start       <== State[data_idx - 1].next_parsing_start;\n        State[data_idx].parsing_header      <== State[data_idx - 1].next_parsing_header;\n        State[data_idx].parsing_field_name  <== State[data_idx-1].next_parsing_field_name;\n        State[data_idx].parsing_field_value <== State[data_idx-1].next_parsing_field_value;\n        State[data_idx].parsing_body        <== State[data_idx - 1].next_parsing_body;\n        State[data_idx].line_status         <== State[data_idx - 1].next_line_status;\n\n"@;
    let t = if req {
        t
    } else {
        t
            + "\n        // Mask if parser is in the body of response\n        bodyMask[data_idx] <== data[data_idx] * State[data_idx].next_parsing_body;\n"@
    };
    let t = if req {
        t
            + "\n        // Check remaining method bytes\n        if(data_idx < methodLen) {\n            methodIsEqual[data_idx] <== IsEqual()([data[data_idx], method[data_idx]]);\n            methodIsEqual[data_idx] === 1;\n        }\n\n        // Get the target bytes\n        startLineMask[data_idx]    <== inStartLine()(State[data_idx].next_parsing_start);\n        targetMask[data_idx]       <== inStartMiddle()(State[data_idx].next_parsing_start);\n        versionMask[data_idx]      <== inStartEnd()(State[data_idx].next_parsing_start);\n        target_start_counter        += startLineMask[data_idx] - targetMask[data_idx] - versionMask[data_idx];\n\n        // Get the version bytes\n        target_end_counter          += startLineMask[data_idx] - versionMask[data_idx];\n        version_end_counter         += startLineMask[data_idx];\n"@
    } else {
        t
            + "\n        // Check remaining version bytes\n        if(data_idx < versionLen) {\n            versionIsEqual[data_idx] <== IsEqual()([data[data_idx], version[data_idx]]);\n            versionIsEqual[data_idx] === 1;\n        }\n\n        // Get the status bytes\n        startLineMask[data_idx]    <== inStartLine()(State[data_idx].next_parsing_start);\n        statusMask[data_idx]       <== inStartMiddle()(State[data_idx].next_parsing_start);\n        messageMask[data_idx]      <== inStartEnd()(State[data_idx].next_parsing_start);\n        status_start_counter        += startLineMask[data_idx] - statusMask[data_idx] - messageMask[data_idx];\n\n        // Get the message bytes\n        status_end_counter          += startLineMask[data_idx] - messageMask[data_idx];\n        message_end_counter         += startLineMask[data_idx];\n"@
    };
    let t = spec_header_loop_match(t, h);
    let t = if debug {
        t
            + "\n        // Debugging\n        log(\"State[\", data_idx, \"].parsing_start      \", \"= \", State[data_idx].parsing_start);\n        log(\"State[\", data_idx, \"].parsing_header     \", \"= \", State[data_idx].parsing_header);\n        log(\"State[\", data_idx, \"].parsing_field_name \", \"= \", State[data_idx].parsing_field_name);\n        log(\"State[\", data_idx, \"].parsing_field_value\", \"= \", State[data_idx].parsing_field_value);\n        log(\"State[\", data_idx, \"].parsing_body       \", \"= \", State[data_idx].parsing_body);\n        log(\"State[\", data_idx, \"].line_status        \", \"= \", State[data_idx].line_status);\n        log(\"xxxxxxxxxxxxxxxxxxxxxxxxxxxxxxxxxxxxxxxxxxxxxxxx\");\n"@
    } else {
        t
    };
    let t = t
        + "    }\n\n    _ <== State[DATA_BYTES-1].next_line_status;\n    _ <== State[DATA_BYTES-1].next_parsing_start;\n    _ <== State[DATA_BYTES-1].next_parsing_header;\n    _ <== State[DATA_BYTES-1].next_parsing_field_name;\n    _ <== State[DATA_BYTES-1].next_parsing_field_value;\n"@;
    let t = if debug {
        t
            + "\n    // Debugging\n    log(\"State[\", DATA_BYTES, \"].parsing_start      \", \"= \", State[DATA_BYTES-1].next_parsing_start);\n    log(\"State[\", DATA_BYTES, \"].parsing_header     \", \"= \", State[DATA_BYTES-1].next_parsing_header);\n    log(\"State[\", DATA_BYTES, \"].parsing_field_name \", \"= \", State[DATA_BYTES-1].parsing_field_name);\n    log(\"State[\", DATA_BYTES, \"].parsing_field_value\", \"= \", State[DATA_BYTES-1].parsing_field_value);\n    log(\"State[\", DATA_BYTES, \"].parsing_body       \", \"= \", State[DATA_BYTES-1].next_parsing_body);\n    log(\"State[\", DATA_BYTES, \"].line_status        \", \"= \", State[DATA_BYTES-1].next_line_status);\n    log(\"xxxxxxxxxxxxxxxxxxxxxxxxxxxxxxxxxxxxxxxxxxxxxxxx\");\n\n"@
    } else {
        t
    };
    let t = if req {
        t
    } else {
        t
            + "\n\n    signal bodyStartingIndex[DATA_BYTES];\n    signal isZeroMask[DATA_BYTES];\n    signal isPrevStartingIndex[DATA_BYTES];\n    bodyStartingIndex[0] <== 0;\n    isPrevStartingIndex[0] <== 0;\n    isZeroMask[0] <== IsZero()(bodyMask[0]);\n    for (var i=1 ; i < DATA_BYTES; i++) {\n        isZeroMask[i] <== IsZero()(bodyMask[i]);\n        isPrevStartingIndex[i] <== IsZero()(bodyStartingIndex[i-1]);\n        bodyStartingIndex[i] <== bodyStartingIndex[i-1] + i * (1-isZeroMask[i]) * isPrevStartingIndex[i];\n    }\n\n    body <== SelectSubArray(DATA_BYTES, maxContentLength)(bodyMask, bodyStartingIndex[DATA_BYTES-1]+1, DATA_BYTES - bodyStartingIndex[DATA_BYTES-1]);\n"@
    };
    let t = if debug {
        t
            + "\n    for(var i = 0; i < maxContentLength; i++) {\n        log(\"body[\", i, \"] = \", body[i]);\n    }\n"@
    } else {
        t
    };
    let t = if req {
        t
            + "\n    // Verify method had correct length\n    methodLen === target_start_counter;\n\n    // Check target is correct by substring match and length check\n    signal targetMatch <== SubstringMatchWithIndex(DATA_BYTES, targetLen)(data, target, target_start_counter + 1);\n    targetMatch        === 1;\n    targetLen          === target_end_counter - target_start_counter - 1;\n\n    // Check version is correct by substring match and length check\n    signal versionMatch <== SubstringMatchWithIndex(DATA_BYTES, versionLen)(data, version, target_end_counter + 1);\n    versionMatch === 1;\n    // -2 here for the CRLF\n    versionLen   === version_end_counter - target_end_counter - 2;\n"@
    } else {
        t
            + "\n    // Verify version had correct length\n    versionLen === status_start_counter;\n\n    // Check status is correct by substring match and length check\n    signal statusMatch <== SubstringMatchWithIndex(DATA_BYTES, statusLen)(data, status, status_start_counter + 1);\n    statusMatch        === 1;\n    statusLen          === status_end_counter - status_start_counter - 1;\n\n    // Check message is correct by substring match and length check\n    signal messageMatch <== SubstringMatchWithIndex(DATA_BYTES, messageLen)(data, message, status_end_counter + 1);\n    messageMatch === 1;\n    // -2 here for the CRLF\n    messageLen          === message_end_counter - status_end_counter - 2;\n"@
    };
    let t = spec_header_asserts(t, h);
    t + "\n}"@
}

/// Emits the source text of the generated HTTP lock circuit.
pub fn http_circuit_source(data: &HttpData, debug: bool) -> (r: String)
    ensures
        r@ == spec_http_circuit(*data, debug),
{
    let params = data.params();
    let hs = match data {
        HttpData::Request(req) => &req.headers,
        HttpData::Response(res) => &res.headers,
    };
    let h = hs.len();
    let is_request = match data {
        HttpData::Request(_) => true,
        HttpData::Response(_) => false,
    };
    let mut buf = String::new();
    buf.append("/*\n");
    emit_http_dump(&mut buf, data);
    buf.append(
        "\n*/\npragma circom 2.1.9;\n\ninclude \"../http/interpreter.circom\";\ninclude \"../http/parser/machine.circom\";\ninclude \"../utils/bytes.circom\";\ninclude \"../utils/search.circom\";\ninclude \"circomlib/circuits/gates.circom\";\ninclude \"@zk-email/circuits/utils/array.circom\";\n\ntemplate ",
    );
    match data {
        HttpData::Request(_) => buf.append("LockHTTPRequest"),
        HttpData::Response(_) => buf.append("LockHTTPResponse"),
    }
    buf.append("(");
    crate::text::append_joined(&mut buf, &params, ", ");
    buf.append(") {");
    buf.append("\n    // Raw HTTP bytestream\n    signal input data[DATA_BYTES];\n");
    if is_request {
        buf.append(
            "\n    // Request line attributes\n    signal input method[methodLen];\n    signal input target[targetLen];\n    signal input version[versionLen];\n\n",
        );
    } else {
        buf.append(
            "\n    // Status line attributes\n    signal input version[versionLen];\n    signal input status[statusLen];\n    signal input message[messageLen];\n\n",
        );
    }
    buf.append("    // Header names and values to lock\n");
    emit_header_inputs(&mut buf, h);
    if !is_request {
        buf.append(
            "\n    // Set up mask bits for where the body of response lies\n    signal output body[maxContentLength];\n\n    signal bodyMask[DATA_BYTES];\n",
        );
    }
    if is_request {
        buf.append(
            "\n    // Check first method byte\n    signal methodIsEqual[methodLen];\n    methodIsEqual[0] <== IsEqual()([data[0],method[0]]);\n    methodIsEqual[0] === 1;\n\n    // Setup to check target and version bytes\n    signal startLineMask[DATA_BYTES];\n    signal targetMask[DATA_BYTES];\n    signal versionMask[DATA_BYTES];\n\n    var target_start_counter = 0;\n    var target_end_counter   = 0;\n    var version_end_counter  = 0;\n",
        );
    } else {
        buf.append(
            "\n    // Check first version byte\n    signal versionIsEqual[versionLen];\n    versionIsEqual[0] <== IsEqual()([data[0],version[0]]);\n    versionIsEqual[0] === 1;\n\n    // Setup to check status and message bytes\n    signal startLineMask[DATA_BYTES];\n    signal statusMask[DATA_BYTES];\n    signal messageMask[DATA_BYTES];\n\n    var status_start_counter = 0;\n    var status_end_counter   = 0;\n    var message_end_counter  = 0;\n",
        );
    }
    emit_header_match_decls(&mut buf, h);
    buf.append(
        "    component State[DATA_BYTES];\n    State[0]                       = HttpStateUpdate();\n    State[0].byte                <== data[0];\n    State[0].parsing_start       <== 1;\n    State[0].parsing_header      <== 0;\n    State[0].parsing_field_name  <== 0;\n    State[0].parsing_field_value <== 0;\n    State[0].parsing_body        <== 0;\n    State[0].line_status         <== 0;\n",
    );
    if !is_request {
        buf.append(
            "\n    // Mask if parser is in the body of response\n    bodyMask[0] <== data[0] * State[0].next_parsing_body;\n",
        );
    }
    if is_request {
        buf.append(
            "\n    // Check remaining method bytes\n    // if(data_idx < methodLen) {\n    //     methodIsEqual[data_idx] <== IsEqual()([data[data_idx], method[data_idx]]);\n    //     methodIsEqual[data_idx] === 1;\n    // }\n\n    // Get the target bytes\n    startLineMask[0]     <== inStartLine()(State[0].next_parsing_start);\n    targetMask[0]        <== inStartMiddle()(State[0].next_parsing_start);\n    versionMask[0]       <== inStartEnd()(State[0].next_parsing_start);\n    target_start_counter += startLineMask[0] - targetMask[0] - versionMask[0];\n\n    // Get the version bytes\n    target_end_counter          += startLineMask[0] - versionMask[0];\n    version_end_counter         += startLineMask[0];\n",
        );
    } else {
        buf.append(
            "\n    // Check remaining version bytes\n    // if(data_idx < versionLen) {\n    //     versionIsEqual[data_idx] <== IsEqual()([data[data_idx], version[data_idx]]);\n    //     versionIsEqual[data_idx] === 1;\n    // }\n\n    // Get the status bytes\n    startLineMask[0]     <== inStartLine()(State[0].next_parsing_start);\n    statusMask[0]        <== inStartMiddle()(State[0].next_parsing_start);\n    messageMask[0]       <== inStartEnd()(State[0].next_parsing_start);\n    status_start_counter += startLineMask[0] - statusMask[0] - messageMask[0];\n\n    // Get the message bytes\n    status_end_counter          += startLineMask[0] - messageMask[0];\n    message_end_counter         += startLineMask[0];\n",
        );
    }
    emit_header_init_match(&mut buf, h);
    buf.append(
        "\n    for(var data_idx = 1; data_idx < DATA_BYTES; data_idx++) {\n        State[data_idx]                       = HttpStateUpdate();\n        State[data_idx].byte                <== data[data_idx];\n        State[data_idx].parsing_start       <== State[data_idx - 1].next_parsing_start;\n        State[data_idx].parsing_header      <== State[data_idx - 1].next_parsing_header;\n        State[data_idx].parsing_field_name  <== State[data_idx-1].next_parsing_field_name;\n        State[data_idx].parsing_field_value <== State[data_idx-1].next_parsing_field_value;\n        State[data_idx].parsing_body        <== State[data_idx - 1].next_parsing_body;\n        State[data_idx].line_status         <== State[data_idx - 1].next_line_status;\n\n",
    );
    if !is_request {
        buf.append(
            "\n        // Mask if parser is in the body of response\n        bodyMask[data_idx] <== data[data_idx] * State[data_idx].next_parsing_body;\n",
        );
    }
    if is_request {
        buf.append(
            "\n        // Check remaining method bytes\n        if(data_idx < methodLen) {\n            methodIsEqual[data_idx] <== IsEqual()([data[data_idx], method[data_idx]]);\n            methodIsEqual[data_idx] === 1;\n        }\n\n        // Get the target bytes\n        startLineMask[data_idx]    <== inStartLine()(State[data_idx].next_parsing_start);\n        targetMask[data_idx]       <== inStartMiddle()(State[data_idx].next_parsing_start);\n        versionMask[data_idx]      <== inStartEnd()(State[data_idx].next_parsing_start);\n        target_start_counter        += startLineMask[data_idx] - targetMask[data_idx] - versionMask[data_idx];\n\n        // Get the version bytes\n        target_end_counter          += startLineMask[data_idx] - versionMask[data_idx];\n        version_end_counter         += startLineMask[data_idx];\n",
        );
    } else {
        buf.append(
            "\n        // Check remaining version bytes\n        if(data_idx < versionLen) {\n            versionIsEqual[data_idx] <== IsEqual()([data[data_idx], version[data_idx]]);\n            versionIsEqual[data_idx] === 1;\n        }\n\n        // Get the status bytes\n        startLineMask[data_idx]    <== inStartLine()(State[data_idx].next_parsing_start);\n        statusMask[data_idx]       <== inStartMiddle()(State[data_idx].next_parsing_start);\n        messageMask[data_idx]      <== inStartEnd()(State[data_idx].next_parsing_start);\n        status_start_counter        += startLineMask[data_idx] - statusMask[data_idx] - messageMask[data_idx];\n\n        // Get the message bytes\n        status_end_counter          += startLineMask[data_idx] - messageMask[data_idx];\n        message_end_counter         += startLineMask[data_idx];\n",
        );
    }
    emit_header_loop_match(&mut buf, h);
    if debug {
        buf.append(
            "\n        // Debugging\n        log(\"State[\", data_idx, \"].parsing_start      \", \"= \", State[data_idx].parsing_start);\n        log(\"State[\", data_idx, \"].parsing_header     \", \"= \", State[data_idx].parsing_header);\n        log(\"State[\", data_idx, \"].parsing_field_name \", \"= \", State[data_idx].parsing_field_name);\n        log(\"State[\", data_idx, \"].parsing_field_value\", \"= \", State[data_idx].parsing_field_value);\n        log(\"State[\", data_idx, \"].parsing_body       \", \"= \", State[data_idx].parsing_body);\n        log(\"State[\", data_idx, \"].line_status        \", \"= \", State[data_idx].line_status);\n        log(\"xxxxxxxxxxxxxxxxxxxxxxxxxxxxxxxxxxxxxxxxxxxxxxxx\");\n",
        );
    }
    buf.append(
        "    }\n\n    _ <== State[DATA_BYTES-1].next_line_status;\n    _ <== State[DATA_BYTES-1].next_parsing_start;\n    _ <== State[DATA_BYTES-1].next_parsing_header;\n    _ <== State[DATA_BYTES-1].next_parsing_field_name;\n    _ <== State[DATA_BYTES-1].next_parsing_field_value;\n",
    );
    if debug {
        buf.append(
            "\n    // Debugging\n    log(\"State[\", DATA_BYTES, \"].parsing_start      \", \"= \", State[DATA_BYTES-1].next_parsing_start);\n    log(\"State[\", DATA_BYTES, \"].parsing_header     \", \"= \", State[DATA_BYTES-1].next_parsing_header);\n    log(\"State[\", DATA_BYTES, \"].parsing_field_name \", \"= \", State[DATA_BYTES-1].parsing_field_name);\n    log(\"State[\", DATA_BYTES, \"].parsing_field_value\", \"= \", State[DATA_BYTES-1].parsing_field_value);\n    log(\"State[\", DATA_BYTES, \"].parsing_body       \", \"= \", State[DATA_BYTES-1].next_parsing_body);\n    log(\"State[\", DATA_BYTES, \"].line_status        \", \"= \", State[DATA_BYTES-1].next_line_status);\n    log(\"xxxxxxxxxxxxxxxxxxxxxxxxxxxxxxxxxxxxxxxxxxxxxxxx\");\n\n",
        );
    }
    if !is_request {
        buf.append(
            "\n\n    signal bodyStartingIndex[DATA_BYTES];\n    signal isZeroMask[DATA_BYTES];\n    signal isPrevStartingIndex[DATA_BYTES];\n    bodyStartingIndex[0] <== 0;\n    isPrevStartingIndex[0] <== 0;\n    isZeroMask[0] <== IsZero()(bodyMask[0]);\n    for (var i=1 ; i < DATA_BYTES; i++) {\n        isZeroMask[i] <== IsZero()(bodyMask[i]);\n        isPrevStartingIndex[i] <== IsZero()(bodyStartingIndex[i-1]);\n        bodyStartingIndex[i] <== bodyStartingIndex[i-1] + i * (1-isZeroMask[i]) * isPrevStartingIndex[i];\n    }\n\n    body <== SelectSubArray(DATA_BYTES, maxContentLength)(bodyMask, bodyStartingIndex[DATA_BYTES-1]+1, DATA_BYTES - bodyStartingIndex[DATA_BYTES-1]);\n",
        );
    }
    if debug {
        buf.append(
            "\n    for(var i = 0; i < maxContentLength; i++) {\n        log(\"body[\", i, \"] = \", body[i]);\n    }\n",
        );
    }
    if is_request {
        buf.append(
            "\n    // Verify method had correct length\n    methodLen === target_start_counter;\n\n    // Check target is correct by substring match and length check\n    signal targetMatch <== SubstringMatchWithIndex(DATA_BYTES, targetLen)(data, target, target_start_counter + 1);\n    targetMatch        === 1;\n    targetLen          === target_end_counter - target_start_counter - 1;\n\n    // Check version is correct by substring match and length check\n    signal versionMatch <== SubstringMatchWithIndex(DATA_BYTES, versionLen)(data, version, target_end_counter + 1);\n    versionMatch === 1;\n    // -2 here for the CRLF\n    versionLen   === version_end_counter - target_end_counter - 2;\n",
        );
    } else {
        buf.append(
            "\n    // Verify version had correct length\n    versionLen === status_start_counter;\n\n    // Check status is correct by substring match and length check\n    signal statusMatch <== SubstringMatchWithIndex(DATA_BYTES, statusLen)(data, status, status_start_counter + 1);\n    statusMatch        === 1;\n    statusLen          === status_end_counter - status_start_counter - 1;\n\n    // Check message is correct by substring match and length check\n    signal messageMatch <== SubstringMatchWithIndex(DATA_BYTES, messageLen)(data, message, status_end_counter + 1);\n    messageMatch === 1;\n    // -2 here for the CRLF\n    messageLen          === message_end_counter - status_end_counter - 2;\n",
        );
    }
    emit_header_asserts(&mut buf, h);
    buf.append("\n}");
    buf
}

/// Builds the registry record for one message and emits the matching lock
/// circuit source: record and template come from the same locked shape.
pub fn http_circuit_from_lockfile(
    input: &[u8],
    http_data: &HttpData,
    codegen_filename: &str,
    debug: bool,
) -> (r: Result<(CircomkitCircuitConfig, String), ExtractError>)
    ensures
        match r {
            Ok((c, source)) => {
                &&& spec_http_populate_params(*http_data, input@) == Ok::<Seq<int>, ExtractError>(
                    c.params@.map_values(|x: usize| x as int),
                )
                &&& c.file@ == "main/"@ + codegen_filename@
                &&& c.template@ == spec_http_template_name(*http_data)
                &&& source@ == spec_http_circuit(*http_data, debug)
            },
            Err(e) => spec_http_populate_params(*http_data, input@) == Err::<Seq<int>, ExtractError>(
                e,
            ),
        },
{
    let config = match http_data.build_circuit_config(input, codegen_filename) {
        Ok(c) => c,
        Err(e) => {
            return Err(e);
        },
    };
    let source = http_circuit_source(http_data, debug);
    Ok((config, source))
}

} // verus!