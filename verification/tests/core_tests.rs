use pabuild::circuit_config::{CircomkitCircuitConfig, CircomkitConfig};
use pabuild::cli::FileType;
use pabuild::codegen::http::{HttpData, Response};
use pabuild::codegen::integrated::{
    integrated_circuit_from_lockfile, integrated_circuit_source, ExtendedLockfile,
};
use pabuild::codegen::json::{Key, Lockfile, ValueType};
use pabuild::scan::{latch_scan, latch_scan_index};
use pabuild::text::dec_string;
use pabuild::witness::{extractor_witness, normalize_crlf, parser_witness, ExtractorWitness};

// The latch scan finds the first set position after position zero, or zero
// when nothing is set; and re-applying it to its own output changes nothing.
#[test]
fn latch_scan_first_position() {
    assert_eq!(latch_scan_index(&vec![false, false, true, true, false]), 2);
    assert_eq!(latch_scan_index(&vec![false, false, false]), 0);
    assert_eq!(latch_scan_index(&vec![false, true]), 1);
    assert_eq!(latch_scan_index(&vec![]), 0);

    // the full per-position latch values
    let starts = latch_scan(&vec![false, false, true, false, true]);
    assert_eq!(starts, vec![0, 0, 2, 2, 2]);

    // idempotence: scanning the latch values as a mask finds the same index
    let mask = vec![false, false, false, true, true, false];
    let starts = latch_scan(&mask);
    let remask: Vec<bool> = starts.iter().map(|&v| v != 0).collect();
    assert_eq!(latch_scan_index(&remask), latch_scan_index(&mask));

    // a set entry at position zero cannot be represented by the latch (zero
    // is also its resting value), so the scan reports the next set position
    assert_eq!(latch_scan_index(&vec![true, false, true]), 2);
}

#[test]
fn decimal_rendering() {
    assert_eq!(dec_string(0), "0");
    assert_eq!(dec_string(7), "7");
    assert_eq!(dec_string(10), "10");
    assert_eq!(dec_string(1234), "1234");
    assert_eq!(dec_string(1000000), "1000000");
}

#[test]
fn crlf_normalization() {
    assert_eq!(normalize_crlf(b"a\nb"), b"a\r\nb".to_vec());
    assert_eq!(normalize_crlf(b"a\r\nb"), b"a\r\nb".to_vec());
    assert_eq!(normalize_crlf(b"\n\n"), b"\r\n\r\n".to_vec());
    assert_eq!(normalize_crlf(b"no feeds"), b"no feeds".to_vec());
    let http = FileType::Http;
    assert_eq!(
        http.prepare_input(b"GET / HTTP/1.1\nHost: x\n\nbody".to_vec()),
        b"GET / HTTP/1.1\r\nHost: x\r\n\r\nbody".to_vec()
    );
    let json = FileType::Json;
    assert_eq!(json.prepare_input(b"{\n}".to_vec()), b"{\n}".to_vec());
}

#[test]
fn registry_upsert() {
    let mut registry = CircomkitConfig::new();
    registry.upsert(
        "first".to_string(),
        CircomkitCircuitConfig {
            file: "main/a".to_string(),
            template: "T".to_string(),
            params: vec![1, 2],
        },
    );
    registry.upsert(
        "second".to_string(),
        CircomkitCircuitConfig {
            file: "main/b".to_string(),
            template: "U".to_string(),
            params: vec![3],
        },
    );
    // last write wins on a name collision, other names keep their records
    registry.upsert(
        "first".to_string(),
        CircomkitCircuitConfig {
            file: "main/c".to_string(),
            template: "V".to_string(),
            params: vec![9],
        },
    );
    assert_eq!(registry.0.len(), 2);
    assert_eq!(registry.0[0].0, "first");
    assert_eq!(registry.0[0].1.file, "main/c");
    assert_eq!(registry.0[0].1.params, vec![9]);
    assert_eq!(registry.0[1].0, "second");
    assert_eq!(registry.0[1].1.template, "U");
}

#[test]
fn witness_builders() {
    let w = parser_witness(FileType::Http, b"HTTP/1.1 200 OK\nA: b".to_vec());
    assert_eq!(w.data, b"HTTP/1.1 200 OK\r\nA: b".to_vec());

    let lockfile = br#"{"keys": ["a", 0, "b"], "value_type": "string"}"#;
    match extractor_witness(FileType::Json, b"{}".to_vec(), lockfile).unwrap() {
        ExtractorWitness::Json(jw) => {
            assert_eq!(jw.data, b"{}".to_vec());
            // only key selectors fill slots, under their positional names
            assert_eq!(jw.keys.len(), 2);
            assert_eq!(jw.keys[0].0, "key1");
            assert_eq!(jw.keys[0].1, b"a".to_vec());
            assert_eq!(jw.keys[1].0, "key3");
            assert_eq!(jw.keys[1].1, b"b".to_vec());
        },
        _ => panic!("expected a JSON witness"),
    }
}

fn response_lockfile() -> HttpData {
    HttpData::Response(Response {
        version: "HTTP/1.1".to_string(),
        status: "200".to_string(),
        message: "OK".to_string(),
        headers: vec![("Content-Type".to_string(), "application/json".to_string())],
    })
}

// Scenario: the integrated composition extracts the same value from the HTTP
// body as a direct JSON extraction on the body bytes in isolation, and its
// parameter vector is the HTTP vector followed by the JSON vector without
// its leading data length.
#[test]
fn integrated_composition() {
    let http = response_lockfile();
    let json = Lockfile {
        keys: vec![Key::String("a".to_string()), Key::String("b".to_string())],
        value_type: ValueType::String,
    };
    let body = br#"{"a":{"b":"deep"}}"#;
    let mut input = b"HTTP/1.1 200 OK\r\nContent-Type: application/json\r\n\r\n".to_vec();
    input.extend_from_slice(body);

    let artifacts = integrated_circuit_from_lockfile(&input, &http, &json, "demo", false).unwrap();

    // direct extraction on the body in isolation
    assert_eq!(json.get_value(body).unwrap(), "deep");
    let direct = json.populate_params(body).unwrap();
    assert_eq!(artifacts.json_config.params, direct);

    // the combined parameters are the HTTP ones plus the JSON ones minus
    // the body length entry
    let mut expected = artifacts.http_config.params.clone();
    expected.extend_from_slice(&direct[1..]);
    assert_eq!(artifacts.config.params, expected);
    assert_eq!(artifacts.config.template, "HttpJson");
    assert_eq!(artifacts.config.file, "main/extended_demo");

    let source = integrated_circuit_source(&http, &json, "demo");
    assert!(source.contains("include \"./demo_http.circom\";"));
    assert!(source.contains("include \"./demo_json.circom\";"));
    assert!(source.contains("template HttpJson(DATA_BYTES, maxContentLength, versionLen, statusLen, messageLen, headerNameLen1, headerValueLen1, MAX_STACK_HEIGHT, keyLen1, depth1, keyLen2, depth2, maxValueLen) {"));
    assert!(source.contains("httpBody <== LockHTTPResponse("));
    assert!(source.contains("value <== ExtractStringValue(maxContentLength, MAX_STACK_HEIGHT, keyLen1, depth1, keyLen2, depth2, maxValueLen)(httpBody, key1, key2);"));
    assert_eq!(artifacts.source, source);
}

#[test]
fn extended_lockfile_from_json() {
    let bytes = br#"{"http": {"version": "HTTP/1.1", "status": "200", "message": "OK"}, "json": {"keys": ["a"], "value_type": "number"}}"#;
    let doc = pabuild::json_value::parse_json(bytes).unwrap();
    let lf = ExtendedLockfile::from_json(&doc).unwrap();
    assert!(matches!(lf.http, HttpData::Response(_)));
    assert_eq!(lf.json.keys.len(), 1);
    assert!(matches!(lf.json.value_type, ValueType::Number));
}
