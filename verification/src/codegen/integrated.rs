//! The integrated generator: one template that locks an HTTP response, binds
//! its extracted body to the JSON locate template's data input, and extracts
//! a value from it.  No new parsing logic lives here; what matters is that
//! the combined parameter list and signal bindings stay consistent with both
//! sub-templates.

use vstd::prelude::*;

use crate::circuit_config::CircomkitCircuitConfig;
use crate::codegen::http::{
    spec_http_circuit, spec_http_inputs, spec_http_params, spec_http_populate_params,
    spec_http_template_name, spec_parse_http, HttpData,
};
use crate::codegen::json::{
    spec_inputs, spec_json_circuit, spec_params, spec_populate_params, spec_template_name,
    Lockfile,
};
use crate::error::ExtractError;
use crate::json_value::JsonValue;
use crate::text::{append_joined, spec_join};

verus! {

/// The combined extraction spec: the locked HTTP shape and the JSON path to
/// walk through the response body.
#[derive(Debug)]
pub struct ExtendedLockfile {
    pub http: HttpData,
    pub json: Lockfile,
}

impl ExtendedLockfile {
    /// Reads the combined spec out of a parsed lockfile document: its `http`
    /// field as a locked shape, its `json` field as an extraction path.
    /// Fails exactly when one of the two parts is missing or malformed.
    pub fn from_json(doc: &JsonValue) -> (r: Result<ExtendedLockfile, ExtractError>)
        ensures
            match r {
                Ok(lf) => {
                    &&& doc.spec_get_key("http"@) is Some
                    &&& doc.spec_get_key("json"@) is Some
                    &&& crate::codegen::http::spec_http_of(doc.spec_get_key("http"@)->Some_0)
                        == Some(lf.http.http_view())
                    &&& crate::codegen::json::spec_lockfile_of(doc.spec_get_key("json"@)->Some_0)
                        == Some((lf.json.keys@, lf.json.value_type))
                },
                Err(e) => {
                    &&& e == ExtractError::SpecParse
                    &&& {
                        ||| doc.spec_get_key("http"@) is None
                        ||| doc.spec_get_key("json"@) is None
                        ||| crate::codegen::http::spec_http_of(
                            doc.spec_get_key("http"@)->Some_0,
                        ) is None
                        ||| crate::codegen::json::spec_lockfile_of(
                            doc.spec_get_key("json"@)->Some_0,
                        ) is None
                    }
                },
            },
    {
        let http_doc = match doc.get_key(&String::from_str("http")) {
            Some(v) => v,
            None => {
                return Err(ExtractError::SpecParse);
            },
        };
        let json_doc = match doc.get_key(&String::from_str("json")) {
            Some(v) => v,
            None => {
                return Err(ExtractError::SpecParse);
            },
        };
        let http = match HttpData::from_json(http_doc) {
            Ok(h) => h,
            Err(e) => {
                return Err(e);
            },
        };
        let json = match Lockfile::from_json(json_doc) {
            Ok(j) => j,
            Err(e) => {
                return Err(e);
            },
        };
        Ok(ExtendedLockfile { http, json })
    }
}

/// The parameter vector of the combined template for one concrete message:
/// the HTTP parameter vector, then the JSON parameter vector computed on the
/// extracted body with its leading data-length entry removed (the body is
/// supplied by the HTTP sub-template).
pub open spec fn spec_integrated_params(
    http: HttpData,
    json: Lockfile,
    input: Seq<u8>,
) -> Result<Seq<int>, ExtractError> {
    match spec_parse_http(input) {
        None => Err(ExtractError::MalformedHttp),
        Some((start, hs, body)) => match spec_populate_params(
            json.keys@,
            json.value_type,
            body,
        ) {
            Err(e) => Err(e),
            Ok(jp) => match spec_http_populate_params(http, input) {
                Ok(hp) => Ok(hp + jp.drop_first()),
                Err(e) => Err(e),
            },
        },
    }
}

/// The composition introduces no divergence: whenever the HTTP side and the
/// JSON side each derive their parameter vector (the latter on the extracted
/// body), the combined vector is exactly the first followed by the second
/// without its leading data length — the same numbers a direct JSON run on
/// the body in isolation computes.
pub proof fn lemma_integrated_composition(http: HttpData, json: Lockfile, input: Seq<u8>)
    requires
        spec_parse_http(input) is Some,
        spec_http_populate_params(http, input) is Ok,
        spec_populate_params(
            json.keys@,
            json.value_type,
            spec_parse_http(input)->Some_0.2,
        ) is Ok,
    ensures
        spec_integrated_params(http, json, input) == Ok::<Seq<int>, ExtractError>(
            spec_http_populate_params(http, input)->Ok_0 + spec_populate_params(
                json.keys@,
                json.value_type,
                spec_parse_http(input)->Some_0.2,
            )->Ok_0.drop_first(),
        ),
{
}

/// The central arity invariant of the combined template: whenever the
/// combined parameter vector is derived, it has exactly one entry per
/// parameter name of the combined template — the HTTP names followed by the
/// JSON names without the leading data length.
pub proof fn lemma_integrated_params_arity(http: HttpData, json: Lockfile, input: Seq<u8>)
    ensures
        match spec_integrated_params(http, json, input) {
            Ok(v) => v.len() == spec_http_params(http).len() + spec_params(
                json.keys@,
            ).drop_first().len(),
            Err(_) => true,
        },
{
    if spec_integrated_params(http, json, input) is Ok {
        let body = spec_parse_http(input)->Some_0.2;
        crate::codegen::http::lemma_http_params_arity(http, input);
        crate::codegen::json::lemma_json_params_arity(json.keys@, json.value_type, body);
        crate::codegen::json::lemma_selector_params_len(json.keys@, json.keys@.len() as int);
        crate::codegen::json::lemma_selector_names_len(json.keys@, json.keys@.len() as int);
    }
}

/// The source text of the combined template: it declares the HTTP inputs,
/// instantiates the HTTP lock template, binds its body output to the JSON
/// extraction template's data input, and exposes the extracted value.
pub open spec fn spec_integrated_circuit(
    http: HttpData,
    json: Lockfile,
    circuit_name: Seq<char>,
) -> Seq<char> {
    let req = http is Request;
    let t = Seq::<char>::empty() + "pragma circom 2.1.9;\n\ninclude \"./"@ + circuit_name
        + "_http.circom\";\ninclude \"./"@ + circuit_name
        + "_json.circom\";\n\ntemplate HttpJson("@ + spec_join(spec_http_params(http), ", "@)
        + ", "@ + spec_join(spec_params(json.keys@).drop_first(), ", "@) + ") {\n"@
        + "\n    // Raw HTTP bytestream\n    signal input data[DATA_BYTES];\n"@;
    let t = if req {
        t
            + "\n    // Request line attributes\n    signal input method[methodLen];\n    signal input target[targetLen];\n    signal input version[versionLen];\n\n"@
    } else {
        t
            + "\n    // Status line attributes\n    signal input version[versionLen];\n    signal input status[statusLen];\n    signal input message[messageLen];\n\n"@
    };
    let t = crate::codegen::http::spec_header_inputs(
        t + "    // Header names and values to lock\n"@,
        http.spec_headers().len() as int,
    );
    let t = t + "\n    signal httpBody[maxContentLength];\n\n    httpBody <== "@
        + spec_http_template_name(http) + "("@ + spec_join(spec_http_params(http), ", "@) + ")("@
        + spec_join(spec_http_inputs(http), ", "@) + ");\n\n"@;
    let t = t + crate::codegen::json::spec_key_inputs(json.keys@, json.keys@.len() as int);
    t + "\n    signal output value[maxValueLen];\n    value <== "@ + spec_template_name(
        json.value_type,
    ) + "(maxContentLength, "@ + spec_join(spec_params(json.keys@).drop_first(), ", "@) + ")(httpBody, "@
        + spec_join(spec_inputs(json.keys@).drop_first(), ", "@) + ");\n}"@
}

/// Emits the source text of the combined template.
pub fn integrated_circuit_source(http: &HttpData, json: &Lockfile, circuit_name: &str) -> (r:
    String)
    ensures
        r@ == spec_integrated_circuit(*http, *json, circuit_name@),
{
    let http_params = http.params();
    let http_inputs = http.inputs();
    let mut json_params = json.params();
    let ghost jp_full = json_params@.map_values(|s: String| s@);
    let _first = json_params.remove(0);
    proof {
        assert(json_params@.map_values(|s: String| s@) =~= jp_full.drop_first());
    }
    let mut json_inputs = json.inputs();
    let ghost ji_full = json_inputs@.map_values(|s: String| s@);
    proof {
        assert(ji_full.len() == json_inputs@.len());
        assert(ji_full.len() >= 1);
    }
    let _first = json_inputs.remove(0);
    proof {
        assert(json_inputs@.map_values(|s: String| s@) =~= ji_full.drop_first());
    }
    let h = match http {
        HttpData::Request(r) => r.headers.len(),
        HttpData::Response(r) => r.headers.len(),
    };
    let mut buf = String::new();
    buf.append("pragma circom 2.1.9;\n\ninclude \"./");
    buf.append(circuit_name);
    buf.append("_http.circom\";\ninclude \"./");
    buf.append(circuit_name);
    buf.append("_json.circom\";\n\ntemplate HttpJson(");
    append_joined(&mut buf, &http_params, ", ");
    buf.append(", ");
    append_joined(&mut buf, &json_params, ", ");
    buf.append(") {\n");
    buf.append("\n    // Raw HTTP bytestream\n    signal input data[DATA_BYTES];\n");
    match http {
        HttpData::Request(_) => {
            buf.append(
                "\n    // Request line attributes\n    signal input method[methodLen];\n    signal input target[targetLen];\n    signal input version[versionLen];\n\n",
            );
        },
        HttpData::Response(_) => {
            buf.append(
                "\n    // Status line attributes\n    signal input version[versionLen];\n    signal input status[statusLen];\n    signal input message[messageLen];\n\n",
            );
        },
    }
    buf.append("    // Header names and values to lock\n");
    crate::codegen::http::emit_header_inputs(&mut buf, h);
    buf.append("\n    signal httpBody[maxContentLength];\n\n    httpBody <== ");
    match http {
        HttpData::Request(_) => buf.append("LockHTTPRequest"),
        HttpData::Response(_) => buf.append("LockHTTPResponse"),
    }
    buf.append("(");
    append_joined(&mut buf, &http_params, ", ");
    buf.append(")(");
    append_joined(&mut buf, &http_inputs, ", ");
    buf.append(");\n\n");
    crate::codegen::json::emit_key_inputs(&mut buf, &json.keys);
    buf.append("\n    signal output value[maxValueLen];\n    value <== ");
    match &json.value_type {
        crate::codegen::json::ValueType::String => buf.append("ExtractStringValue"),
        crate::codegen::json::ValueType::Number => buf.append("ExtractNumValue"),
    }
    buf.append("(maxContentLength, ");
    append_joined(&mut buf, &json_params, ", ");
    buf.append(")(httpBody, ");
    append_joined(&mut buf, &json_inputs, ", ");
    buf.append(");\n}");
    buf
}

/// Everything one integrated run generates: the HTTP lock circuit, the JSON
/// extraction circuit computed on the response body, the combined circuit
/// that binds them, and the registry record of the combined circuit.
pub struct IntegratedCircuit {
    pub http_config: CircomkitCircuitConfig,
    pub http_source: String,
    pub json_config: CircomkitCircuitConfig,
    pub json_source: String,
    pub config: CircomkitCircuitConfig,
    pub source: String,
}

/// The combined parameter vector: the HTTP parameters followed by the JSON
/// parameters without their leading data length.
#[verifier::loop_isolation(false)]
fn combine_params(hp: &Vec<usize>, jp: &Vec<usize>) -> (r: Vec<usize>)
    requires
        jp@.len() >= 1,
    ensures
        r@.map_values(|x: usize| x as int) == hp@.map_values(|x: usize| x as int)
            + jp@.map_values(|x: usize| x as int).drop_first(),
{
    let ghost f = |x: usize| x as int;
    let mut r = vstd::slice::slice_to_vec(hp.as_slice());
    let mut rest = vstd::slice::slice_to_vec(jp.as_slice());
    let _first = rest.remove(0);
    r.append(&mut rest);
    proof {
        assert(r@.map_values(f) =~= hp@.map_values(f) + jp@.map_values(f).drop_first());
    }
    r
}

/// Builds all artifacts of one integrated run from one concrete message, so
/// that the three templates and the registry record can never disagree about
/// the parameters.
#[verifier::rlimit(100)]
pub fn integrated_circuit_from_lockfile(
    input: &[u8],
    http_data: &HttpData,
    json_lockfile: &Lockfile,
    circuit_name: &str,
    debug: bool,
) -> (r: Result<IntegratedCircuit, ExtractError>)
    ensures
        match r {
            Ok(art) => {
                &&& spec_integrated_params(*http_data, *json_lockfile, input@) == Ok::<
                    Seq<int>,
                    ExtractError,
                >(art.config.params@.map_values(|x: usize| x as int))
                &&& art.config.file@ == "main/extended_"@ + circuit_name@
                &&& art.config.template@ == "HttpJson"@
                &&& art.source@ == spec_integrated_circuit(
                    *http_data,
                    *json_lockfile,
                    circuit_name@,
                )
                &&& art.http_source@ == spec_http_circuit(*http_data, debug)
                &&& spec_http_populate_params(*http_data, input@) == Ok::<Seq<int>, ExtractError>(
                    art.http_config.params@.map_values(|x: usize| x as int),
                )
                &&& art.json_source@ == spec_json_circuit(
                    json_lockfile.keys@,
                    json_lockfile.value_type,
                    debug,
                )
                &&& spec_populate_params(
                    json_lockfile.keys@,
                    json_lockfile.value_type,
                    spec_parse_http(input@)->Some_0.2,
                ) == Ok::<Seq<int>, ExtractError>(
                    art.json_config.params@.map_values(|x: usize| x as int),
                )
            },
            Err(e) => spec_integrated_params(*http_data, *json_lockfile, input@) == Err::<
                Seq<int>,
                ExtractError,
            >(e),
        },
{
    let body = match http_data.parse_input(input) {
        Ok(msg) => msg.body,
        Err(e) => {
            return Err(e);
        },
    };
    let mut json_filename = String::new();
    json_filename.append(circuit_name);
    json_filename.append("_json");
    let (json_config, json_source) = match crate::codegen::json::json_circuit_from_lockfile(
        body.as_slice(),
        json_lockfile,
        json_filename.as_str(),
        debug,
    ) {
        Ok(p) => p,
        Err(e) => {
            return Err(e);
        },
    };
    let mut http_filename = String::new();
    http_filename.append(circuit_name);
    http_filename.append("_http");
    let (http_config, http_source) = match crate::codegen::http::http_circuit_from_lockfile(
        input,
        http_data,
        http_filename.as_str(),
        debug,
    ) {
        Ok(p) => p,
        Err(e) => {
            return Err(e);
        },
    };
    let source = integrated_circuit_source(http_data, json_lockfile, circuit_name);
    proof {
        assert(json_config.params@.map_values(|x: usize| x as int).len()
            == json_config.params@.len());
    }
    let params = combine_params(&http_config.params, &json_config.params);
    let mut file = String::from_str("main/extended_");
    file.append(circuit_name);
    let config = CircomkitCircuitConfig {
        file,
        template: String::from_str("HttpJson"),
        params,
    };
    Ok(
        IntegratedCircuit {
            http_config,
            http_source,
            json_config,
            json_source,
            config,
            source,
        },
    )
}

} // verus!
