//! Witness building: the documents that pair the raw input bytes with the
//! selector byte-strings, in the exact slots the generated templates expect.

use vstd::prelude::*;

use crate::cli::FileType;
use crate::codegen::http::{spec_http_of, HttpData};
use crate::codegen::json::{spec_keys_as_bytes, spec_lockfile_of, Lockfile};
use crate::error::ExtractError;
use crate::json_value::{json_doc_of, parse_json};

verus! {

/// The witness of a bare parser run: the raw input bytes.
pub struct ParserWitness {
    pub data: Vec<u8>,
}

/// The witness of a JSON extraction: the raw input bytes and the key bytes,
/// slot by slot.
pub struct JsonExtractorWitness {
    pub data: Vec<u8>,
    pub keys: Vec<(String, Vec<u8>)>,
}

/// The witness of an HTTP extraction: the raw message bytes and the locked
/// shape whose fields fill the remaining slots.
pub struct HttpExtractorWitness {
    pub data: Vec<u8>,
    pub http_data: HttpData,
}

/// The witness of an integrated extraction: the HTTP witness plus the JSON
/// key slots.
pub struct ExtendedWitness {
    pub http_witness: HttpExtractorWitness,
    pub keys: Vec<(String, Vec<u8>)>,
}

/// `input` with every bare line feed replaced by a carriage-return/line-feed
/// pair, reading the first `i` input bytes: a line feed is bare when it is
/// not directly preceded by a carriage return in the input.
pub open spec fn spec_crlf_prefix(input: Seq<u8>, i: int) -> Seq<u8>
    decreases i,
{
    if i <= 0 {
        Seq::empty()
    } else {
        spec_crlf_prefix(input, i - 1) + (if input[i - 1] == 10 && (i - 1 == 0 || input[i - 2]
            != 13) {
            seq![13u8, 10u8]
        } else {
            seq![input[i - 1]]
        })
    }
}

/// `input` with every bare line feed normalized to a CRLF pair.
pub open spec fn spec_normalize_crlf(input: Seq<u8>) -> Seq<u8> {
    spec_crlf_prefix(input, input.len() as int)
}

/// What preparing an input of a given kind yields: JSON inputs pass through,
/// HTTP (and integrated) inputs are CRLF-normalized, exactly once, before
/// any other component sees them.
pub open spec fn spec_prepare_input(t: FileType, input: Seq<u8>) -> Seq<u8> {
    match t {
        FileType::Json => input,
        FileType::Http => spec_normalize_crlf(input),
        FileType::Extended => spec_normalize_crlf(input),
    }
}

/// Normalizes bare line feeds to CRLF pairs.
#[verifier::loop_isolation(false)]
pub fn normalize_crlf(input: &[u8]) -> (r: Vec<u8>)
    ensures
        r@ == spec_normalize_crlf(input@),
{
    let n = input.len();
    let mut out: Vec<u8> = Vec::new();
    let mut i: usize = 0;
    proof {
        assert(out@ =~= spec_crlf_prefix(input@, 0));
    }
    while i < n
        invariant
            i <= n,
            out@ == spec_crlf_prefix(input@, i as int),
        decreases n - i,
    {
        let ghost pre = out@;
        let b = input[i];
        if b == 10 && (i == 0 || input[i - 1] != 13) {
            out.push(13);
            out.push(10);
            proof {
                assert(out@ =~= pre + seq![13u8, 10u8]);
            }
        } else {
            out.push(b);
            proof {
                assert(out@ =~= pre + seq![input@[i as int]]);
            }
        }
        i += 1;
    }
    out
}

impl FileType {
    /// Prepares raw input bytes of this kind for every later stage: HTTP and
    /// integrated inputs are CRLF-normalized, JSON inputs pass through.
    pub fn prepare_input(&self, input: Vec<u8>) -> (r: Vec<u8>)
        ensures
            r@ == spec_prepare_input(*self, input@),
    {
        match self {
            FileType::Json => input,
            FileType::Http => normalize_crlf(input.as_slice()),
            FileType::Extended => normalize_crlf(input.as_slice()),
        }
    }
}

/// Builds the witness of a bare parser run: the prepared input bytes.
pub fn parser_witness(subcommand: FileType, input: Vec<u8>) -> (r: ParserWitness)
    ensures
        r.data@ == spec_prepare_input(subcommand, input@),
{
    let data = subcommand.prepare_input(input);
    ParserWitness { data }
}

/// The witness an extractor run builds, by input kind.
pub enum ExtractorWitness {
    Json(JsonExtractorWitness),
    Http(HttpExtractorWitness),
    Extended(ExtendedWitness),
}

/// Builds the witness of an extraction run: the prepared input bytes,
/// together with the selector material of the extraction spec — the key
/// bytes slot by slot for JSON, the locked shape for HTTP, both for the
/// integrated kind.  A lockfile that parses as a spec of the requested kind
/// always yields a witness.
pub fn extractor_witness(subcommand: FileType, input: Vec<u8>, lockfile: &[u8]) -> (r: Result<
    ExtractorWitness,
    ExtractError,
>)
    ensures
        subcommand == FileType::Json && json_doc_of(lockfile@) is Some && spec_lockfile_of(
            json_doc_of(lockfile@)->Some_0,
        ) is Some ==> r is Ok,
        subcommand == FileType::Http && json_doc_of(lockfile@) is Some && spec_http_of(
            json_doc_of(lockfile@)->Some_0,
        ) is Some ==> r is Ok,
        subcommand == FileType::Extended && json_doc_of(lockfile@) is Some && ({
            let doc = json_doc_of(lockfile@)->Some_0;
            &&& doc.spec_get_key("http"@) is Some
            &&& spec_http_of(doc.spec_get_key("http"@)->Some_0) is Some
            &&& doc.spec_get_key("json"@) is Some
            &&& spec_lockfile_of(doc.spec_get_key("json"@)->Some_0) is Some
        }) ==> r is Ok,
        match r {
            Ok(w) => json_doc_of(lockfile@) is Some && match w {
                ExtractorWitness::Json(jw) => {
                    &&& subcommand == FileType::Json
                    &&& jw.data@ == spec_prepare_input(subcommand, input@)
                    &&& match spec_lockfile_of(json_doc_of(lockfile@)->Some_0) {
                        Some((keys, vt)) => jw.keys@.map_values(
                            |p: (String, Vec<u8>)| (p.0@, p.1@),
                        ) == spec_keys_as_bytes(keys, keys.len() as int),
                        None => false,
                    }
                },
                ExtractorWitness::Http(hw) => {
                    &&& subcommand == FileType::Http
                    &&& hw.data@ == spec_prepare_input(subcommand, input@)
                    &&& spec_http_of(json_doc_of(lockfile@)->Some_0) == Some(
                        hw.http_data.http_view(),
                    )
                },
                ExtractorWitness::Extended(ew) => {
                    &&& subcommand == FileType::Extended
                    &&& ew.http_witness.data@ == spec_prepare_input(subcommand, input@)
                    &&& {
                        let doc = json_doc_of(lockfile@)->Some_0;
                        &&& doc.spec_get_key("http"@) is Some
                        &&& spec_http_of(doc.spec_get_key("http"@)->Some_0) == Some(
                            ew.http_witness.http_data.http_view(),
                        )
                        &&& doc.spec_get_key("json"@) is Some
                        &&& match spec_lockfile_of(doc.spec_get_key("json"@)->Some_0) {
                            Some((keys, vt)) => ew.keys@.map_values(
                                |p: (String, Vec<u8>)| (p.0@, p.1@),
                            ) == spec_keys_as_bytes(keys, keys.len() as int),
                            None => false,
                        }
                    }
                },
            },
            Err(e) => e == ExtractError::SpecParse,
        },
{
    let data = subcommand.prepare_input(input);
    let doc = match parse_json(lockfile) {
        Some(d) => d,
        None => {
            return Err(ExtractError::SpecParse);
        },
    };
    match subcommand {
        FileType::Json => {
            let lf = match Lockfile::from_json(&doc) {
                Ok(lf) => lf,
                Err(_) => {
                    return Err(ExtractError::SpecParse);
                },
            };
            let keys = lf.keys_as_bytes();
            Ok(ExtractorWitness::Json(JsonExtractorWitness { data, keys }))
        },
        FileType::Http => {
            let http_data = match HttpData::from_json(&doc) {
                Ok(h) => h,
                Err(_) => {
                    return Err(ExtractError::SpecParse);
                },
            };
            Ok(ExtractorWitness::Http(HttpExtractorWitness { data, http_data }))
        },
        FileType::Extended => {
            let lf = match crate::codegen::integrated::ExtendedLockfile::from_json(&doc) {
                Ok(lf) => lf,
                Err(_) => {
                    return Err(ExtractError::SpecParse);
                },
            };
            let keys = lf.json.keys_as_bytes();
            Ok(
                ExtractorWitness::Extended(
                    ExtendedWitness {
                        http_witness: HttpExtractorWitness { data, http_data: lf.http },
                        keys,
                    },
                ),
            )
        },
    }
}

} // verus!
