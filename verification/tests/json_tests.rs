use pabuild::codegen::json::{json_circuit_source, json_max_stack_height, Key, Lockfile, ValueType};
use pabuild::error::ExtractError;

fn spotify_input() -> Vec<u8> {
    br#"{"data":{"items":[{"profile":{"name":"Taylor Swift"}}]}}"#.to_vec()
}

fn spotify_lockfile() -> Lockfile {
    Lockfile {
        keys: vec![
            Key::String("data".to_string()),
            Key::String("items".to_string()),
            Key::Num(0),
            Key::String("profile".to_string()),
            Key::String("name".to_string()),
        ],
        value_type: ValueType::String,
    }
}

#[test]
fn json_params() {
    let lockfile = Lockfile {
        keys: vec![
            Key::String("a".to_string()),
            Key::Num(0),
            Key::String("b".to_string()),
        ],
        value_type: ValueType::String,
    };

    let params = lockfile.params();

    assert_eq!(params[0], "DATA_BYTES");
    assert_eq!(params[1], "MAX_STACK_HEIGHT");
    assert_eq!(params.len(), 2 + 2 * lockfile.keys.len() + 1);
    assert_eq!(
        params,
        vec![
            "DATA_BYTES", "MAX_STACK_HEIGHT", "keyLen1", "depth1", "index2", "depth2", "keyLen3",
            "depth3", "maxValueLen"
        ]
    );
}

#[test]
fn json_inputs() {
    let lockfile = Lockfile {
        keys: vec![Key::String("a".to_string()), Key::Num(0)],
        value_type: ValueType::Number,
    };

    let inputs = lockfile.inputs();

    assert_eq!(inputs.len(), 2);
    assert_eq!(inputs[0], "data");
    assert_eq!(inputs[1], "key1");
}

#[test]
fn json_populate_params() {
    let input = spotify_input();
    let lockfile = spotify_lockfile();

    let params = lockfile.populate_params(&input).unwrap();

    assert_eq!(params.len(), lockfile.params().len());
    assert_eq!(params[0], input.len());
    // data length, max stack height, then (len | index, depth) per selector,
    // then the terminal value's byte length
    assert_eq!(
        params,
        vec![input.len(), 5, 4, 0, 5, 1, 0, 2, 7, 3, 4, 4, "Taylor Swift".len()]
    );
}

#[test]
fn build_circuit_config() {
    let input = spotify_input();
    let lockfile = spotify_lockfile();

    let config = lockfile
        .build_circuit_config(&input, "output_filename")
        .unwrap();

    assert_eq!(config.template, "ExtractStringValue");
    assert_eq!(config.file, "main/output_filename");
}

#[test]
fn json_value() {
    let input = spotify_input();
    let lockfile = spotify_lockfile();

    let value = lockfile.get_value(&input).unwrap();

    assert_eq!(value, "Taylor Swift");
}

#[test]
fn max_stack_height() {
    let input = br#"{"key1": "abc", "key2": "def"}"#;
    assert_eq!(json_max_stack_height(input), 1);

    let input = spotify_input();
    assert_eq!(json_max_stack_height(&input), 5);
}

#[test]
fn max_stack_height_ignores_quoted_brackets() {
    assert_eq!(json_max_stack_height(br#"{"a": "{[{["}"#), 1);
    assert_eq!(json_max_stack_height(br#"{"a": "\"{", "b": [1]}"#), 2);
}

// The structural fact is invariant to whitespace inserted outside string
// literals.
#[test]
fn max_stack_height_whitespace_invariant() {
    let compact = br#"{"a":{"b":[1,2]}}"#;
    let spaced = br#"{ "a" :  {  "b" : [ 1 , 2 ] }  }"#;
    assert_eq!(
        json_max_stack_height(compact),
        json_max_stack_height(spaced)
    );
}

// Scenario: a two-key path resolves to its string value, and the document
// needs stack height 2.
#[test]
fn glossary_scenario() {
    let input = br#"{"glossary":{"title":"S"}}"#;
    let lockfile = Lockfile {
        keys: vec![
            Key::String("glossary".to_string()),
            Key::String("title".to_string()),
        ],
        value_type: ValueType::String,
    };
    assert_eq!(lockfile.get_value(input).unwrap(), "S");
    assert_eq!(json_max_stack_height(input), 2);
}

// Scenario: a missing key fails with `PathNotFound` naming the key.
#[test]
fn missing_key_scenario() {
    let input = br#"{"glossary":{"title":"S"}}"#;
    let lockfile = Lockfile {
        keys: vec![
            Key::String("glossary".to_string()),
            Key::String("missing".to_string()),
        ],
        value_type: ValueType::String,
    };
    match lockfile.get_value(input) {
        Err(ExtractError::PathNotFound(Key::String(name))) => assert_eq!(name, "missing"),
        other => panic!("expected PathNotFound, got {:?}", other.map(|_| ())),
    }
    let message = lockfile.get_value(input).unwrap_err().message();
    assert_eq!(message, "provided key not present in input JSON: missing");
}

#[test]
fn type_mismatch() {
    let input = br#"{"n": "text"}"#;
    let lockfile = Lockfile {
        keys: vec![Key::String("n".to_string())],
        value_type: ValueType::Number,
    };
    assert!(matches!(
        lockfile.get_value(input),
        Err(ExtractError::TypeMismatch)
    ));

    let number_input = br#"{"n": 42}"#;
    let number_lockfile = Lockfile {
        keys: vec![Key::String("n".to_string())],
        value_type: ValueType::Number,
    };
    assert_eq!(number_lockfile.get_value(number_input).unwrap(), "42");
}

#[test]
fn invalid_json_input() {
    let lockfile = Lockfile {
        keys: vec![Key::String("a".to_string())],
        value_type: ValueType::String,
    };
    assert!(matches!(
        lockfile.get_value(b"not json"),
        Err(ExtractError::JsonParse)
    ));
}

#[test]
fn lockfile_from_bytes() {
    let lockfile =
        Lockfile::from_bytes(br#"{"keys": ["data", 0, "name"], "value_type": "string"}"#).unwrap();
    assert_eq!(lockfile.keys.len(), 3);
    assert!(matches!(&lockfile.keys[0], Key::String(s) if s == "data"));
    assert!(matches!(&lockfile.keys[1], Key::Num(0)));
    assert!(matches!(lockfile.value_type, ValueType::String));

    assert!(matches!(
        Lockfile::from_bytes(br#"{"keys": [true], "value_type": "string"}"#),
        Err(ExtractError::SpecParse)
    ));
    assert!(matches!(
        Lockfile::from_bytes(br#"{"keys": [], "value_type": "float"}"#),
        Err(ExtractError::SpecParse)
    ));
}

// The parameter vector is a deterministic function of the spec and input
// alone: deriving it twice yields identical vectors.
#[test]
fn populate_params_deterministic() {
    let input = spotify_input();
    let lockfile = spotify_lockfile();
    let first = lockfile.build_circuit_config(&input, "out").unwrap();
    let second = lockfile.build_circuit_config(&input, "out").unwrap();
    assert_eq!(first.params, second.params);
}

#[test]
fn json_circuit_text() {
    let lockfile = Lockfile {
        keys: vec![Key::String("a".to_string()), Key::Num(2)],
        value_type: ValueType::String,
    };
    let source = json_circuit_source(&lockfile, false);
    assert!(source.starts_with("/*\nLockfile {\n    keys: [\n        \"a\",\n        2,\n"));
    assert!(source.contains(
        "template ExtractValue(DATA_BYTES, MAX_STACK_HEIGHT, keyLen1, depth1, index2, depth2, maxValueLen) {"
    ));
    assert!(source.contains("    signal input key1[keyLen1];\n"));
    assert!(source.contains("parsing_array2[data_idx] <== InsideArrayIndex(index2)"));
    assert!(source.contains(
        "template ExtractStringValue(DATA_BYTES, MAX_STACK_HEIGHT, keyLen1, depth1, index2, depth2, maxValueLen) {"
    ));
    assert!(source.ends_with("}\n"));
    // the debug build only adds text
    let debug_source = json_circuit_source(&lockfile, true);
    assert!(debug_source.len() > source.len());
    assert!(debug_source.contains("log(\"value_starting_index\""));
}

// A path of index selectors alone has no latch/propagation stage: no
// latched match signals are declared, and the mask is the combined scope
// flag alone.
#[test]
fn json_index_only_circuit_text() {
    let lockfile = Lockfile {
        keys: vec![Key::Num(0), Key::Num(3)],
        value_type: ValueType::Number,
    };
    let source = json_circuit_source(&lockfile, false);
    assert!(!source.contains("is_value_match"));
    assert!(!source.contains("MultiAND(0)"));
    assert!(source.contains("    mask[0] <== parsing_value[0];\n"));
    assert!(source.contains("        mask[data_idx] <== parsing_value[data_idx];\n    }"));
    assert!(source.contains(
        "template ExtractValue(DATA_BYTES, MAX_STACK_HEIGHT, index1, depth1, index2, depth2, maxValueLen) {"
    ));
}

// Removing inserted whitespace is invariant too: the analyzer reports the
// same height for a spaced and a compacted document.
#[test]
fn max_stack_height_whitespace_removal() {
    let spaced = br#"{"a": [ {"b": 1} ]}"#;
    let compact = br#"{"a":[{"b":1}]}"#;
    assert_eq!(json_max_stack_height(spaced), json_max_stack_height(compact));
    assert_eq!(json_max_stack_height(spaced), 3);
}

#[test]
fn json_number_circuit_text() {
    let lockfile = Lockfile {
        keys: vec![Key::String("n".to_string())],
        value_type: ValueType::Number,
    };
    let source = json_circuit_source(&lockfile, false);
    assert!(source.contains("template ExtractNumValue(DATA_BYTES, MAX_STACK_HEIGHT, keyLen1, depth1, maxValueLen) {"));
    assert!(source.contains("number_value[0] <== (value_string[0]-48);"));
}
