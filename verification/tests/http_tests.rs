use pabuild::codegen::http::{
    header_match_count, http_circuit_source, HttpData, Request, Response,
};
use pabuild::error::ExtractError;

fn response_lockfile() -> HttpData {
    HttpData::Response(Response {
        version: "HTTP/1.1".to_string(),
        status: "200".to_string(),
        message: "OK".to_string(),
        headers: vec![("Content-Type".to_string(), "application/json".to_string())],
    })
}

fn request_lockfile() -> HttpData {
    HttpData::Request(Request {
        method: "GET".to_string(),
        target: "/api".to_string(),
        version: "HTTP/1.1".to_string(),
        headers: vec![
            ("Accept".to_string(), "application/json".to_string()),
            ("Host".to_string(), "localhost".to_string()),
        ],
    })
}

#[test]
fn http_params() {
    let lockfile = response_lockfile();

    let params = lockfile.params();

    assert_eq!(params.len(), 7);
    assert_eq!(params[0], "DATA_BYTES");
    assert_eq!(params[1], "maxContentLength");
}

#[test]
fn http_inputs() {
    let lockfile = response_lockfile();

    let inputs = lockfile.inputs();

    assert_eq!(inputs.len(), 6);
    assert_eq!(inputs[1], "version");
    assert_eq!(inputs[2], "status");
    assert_eq!(inputs[3], "message");
}

#[test]
fn http_populate_params() {
    let lockfile = request_lockfile();

    let input = b"GET /api HTTP/1.1\r\nAccept: application/json\r\nHost: localhost";

    let params = lockfile.populate_params(input).unwrap();

    assert_eq!(params.len(), 8);
    assert_eq!(params, [input.len(), 3, 4, 8, 6, 16, 4, 9]);
}

#[test]
fn parse_input() {
    let lockfile = request_lockfile();

    let input = b"GET /api HTTP/1.1\r\nAccept: application/json\r\nHost: localhost";

    let msg = lockfile.parse_input(input).unwrap();

    assert_eq!(msg.body.len(), 0);
    assert_eq!(msg.start1, b"GET".to_vec());
    assert_eq!(msg.start2, b"/api".to_vec());
    assert_eq!(msg.start3, b"HTTP/1.1".to_vec());
    let accept = msg
        .headers
        .iter()
        .find(|p| p.0 == b"Accept".to_vec())
        .unwrap();
    assert_eq!(accept.1, b"application/json".to_vec());
}

#[test]
fn parse_input_headers_sorted() {
    let lockfile = request_lockfile();
    let input = b"GET / HTTP/1.1\r\nHost: localhost\r\nAccept: text/plain";
    let msg = lockfile.parse_input(input).unwrap();
    assert_eq!(msg.headers.len(), 2);
    assert_eq!(msg.headers[0].0, b"Accept".to_vec());
    assert_eq!(msg.headers[1].0, b"Host".to_vec());
}

#[test]
fn parse_input_malformed() {
    let lockfile = request_lockfile();
    // start line with only two fields
    assert!(matches!(
        lockfile.parse_input(b"GET /api\r\nHost: x"),
        Err(ExtractError::MalformedHttp)
    ));
    // header without a colon-and-space separator
    assert!(matches!(
        lockfile.parse_input(b"GET /api HTTP/1.1\r\nHost=x"),
        Err(ExtractError::MalformedHttp)
    ));
}

// Scenario: the body after the blank line is extracted, a locked header
// matches the stream at least once, and altering or omitting it leaves the
// match count at zero (the generated circuit would be unsatisfiable).
#[test]
fn response_body_scenario() {
    let lockfile = response_lockfile();
    let input = b"HTTP/1.1 200 OK\r\nContent-Type: text/plain\r\n\r\nhello";

    let msg = lockfile.parse_input(input).unwrap();
    assert_eq!(msg.body, b"hello".to_vec());
    assert_eq!(msg.start1, b"HTTP/1.1".to_vec());
    assert_eq!(msg.start2, b"200".to_vec());
    assert_eq!(msg.start3, b"OK".to_vec());

    assert_eq!(header_match_count(input, b"Content-Type", b"text/plain"), 1);
    assert_eq!(header_match_count(input, b"Content-Type", b"text/html"), 0);
    assert_eq!(header_match_count(input, b"Accept", b"text/plain"), 0);
}

#[test]
fn http_lockfile_from_json() {
    let bytes = br#"{"version": "HTTP/1.1", "status": "200", "message": "OK", "headerName1": "Content-Type", "headerValue1": "application/json"}"#;
    let doc = pabuild::json_value::parse_json(bytes).unwrap();
    let data = HttpData::from_json(&doc).unwrap();
    match &data {
        HttpData::Response(r) => {
            assert_eq!(r.version, "HTTP/1.1");
            assert_eq!(r.status, "200");
            assert_eq!(r.message, "OK");
            assert_eq!(r.headers.len(), 1);
            assert_eq!(r.headers[0].0, "Content-Type");
            assert_eq!(r.headers[0].1, "application/json");
        },
        HttpData::Request(_) => panic!("expected a response"),
    }

    let req_bytes = br#"{"method": "GET", "target": "/", "version": "HTTP/1.1", "headerName1": "Host", "headerValue1": "localhost", "headerName2": "Accept", "headerValue2": "*"}"#;
    let doc = pabuild::json_value::parse_json(req_bytes).unwrap();
    let data = HttpData::from_json(&doc).unwrap();
    match &data {
        HttpData::Request(r) => {
            assert_eq!(r.method, "GET");
            // numbered pairs land in name order
            assert_eq!(r.headers.len(), 2);
            assert_eq!(r.headers[0].0, "Accept");
            assert_eq!(r.headers[1].0, "Host");
        },
        HttpData::Response(_) => panic!("expected a request"),
    }
}

#[test]
fn http_circuit_text() {
    let lockfile = response_lockfile();
    let source = http_circuit_source(&lockfile, false);
    assert!(source.starts_with("/*\nResponse {\n    version: \"HTTP/1.1\",\n"));
    assert!(source.contains(
        "template LockHTTPResponse(DATA_BYTES, maxContentLength, versionLen, statusLen, messageLen, headerNameLen1, headerValueLen1) {"
    ));
    assert!(source.contains("signal output body[maxContentLength];"));
    assert!(source.contains("hasMatchedHeaderValue1 === 1;\n"));
    assert!(source.ends_with("\n}"));

    let request_source = http_circuit_source(&request_lockfile(), false);
    assert!(request_source.contains(
        "template LockHTTPRequest(DATA_BYTES, methodLen, targetLen, versionLen, headerNameLen1, headerValueLen1, headerNameLen2, headerValueLen2) {"
    ));
    assert!(request_source.contains("methodLen === target_start_counter;"));
    assert!(!request_source.contains("signal output body"));
}
