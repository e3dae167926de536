use optcore::json::parse_child_output;

fn accepts(s: &[u8]) -> bool {
    parse_child_output(s).is_some()
}

fn value_of(s: &[u8]) -> Option<Vec<u8>> {
    parse_child_output(s).expect("well-formed output")
}

#[test]
fn unterminated_document_is_rejected() {
    assert!(!accepts(b"{"));
    assert!(!accepts(b"{\"objFuncVal\": 1"));
    assert!(!accepts(b"{\"objFuncVal\": "));
    assert!(!accepts(b"{\"objFuncVal\""));
}

#[test]
fn separators_are_strict() {
    assert!(!accepts(b"{\"a\": 1,}"));
    assert!(!accepts(b"{\"a\" 1}"));
    assert!(!accepts(b"{\"a\": 1 \"b\": 2}"));
    assert!(!accepts(b"{\"a\": [1, 2,]}"));
    assert!(!accepts(b"{\"a\": [1 2]}"));
    assert!(accepts(b"{\"a\": [1, 2]}"));
}

#[test]
fn string_escapes_are_checked_structurally() {
    assert!(accepts(b"{\"a\": \"q\\n\\u0041\\\\\"}"));
    assert!(!accepts(b"{\"a\": \"q\\x\"}"));
    assert!(!accepts(b"{\"a\": \"q\\u12\"}"));
    assert!(!accepts(b"{\"a\": \"q\\u12zw\"}"));
    assert!(!accepts(b"{\"a\": \"unterminated}"));
}

#[test]
fn raw_control_bytes_in_strings_are_rejected() {
    assert!(!accepts(b"{\"a\": \"q\x01w\"}"));
    assert!(!accepts(b"{\"a\x0cb\": 1}"));
}

#[test]
fn number_grammar_is_strict() {
    assert!(accepts(b"{\"objFuncVal\": -0}"));
    assert!(accepts(b"{\"objFuncVal\": 10.25E-3}"));
    assert!(!accepts(b"{\"objFuncVal\": +1}"));
    assert!(!accepts(b"{\"objFuncVal\": .5}"));
    assert!(!accepts(b"{\"objFuncVal\": 1.}"));
    assert!(!accepts(b"{\"objFuncVal\": 1e}"));
    assert!(!accepts(b"{\"objFuncVal\": 00}"));
    assert!(!accepts(b"{\"objFuncVal\": NaN}"));
}

#[test]
fn deep_nesting_in_ignored_fields_is_skipped() {
    let s = b"{\"a\": [[[{\"b\": [null, [\"c\", {}]]}]]], \"objFuncVal\": 4}";
    assert_eq!(value_of(s), Some(b"4".to_vec()));
}

#[test]
fn literals_in_ignored_fields() {
    assert_eq!(value_of(b"{\"a\": true, \"b\": false, \"c\": null}"), None);
    assert!(!accepts(b"{\"a\": tru}"));
    assert!(!accepts(b"{\"a\": nul}"));
}

#[test]
fn field_value_spans_are_exact() {
    assert_eq!(value_of(b"{\"objFuncVal\":-12.5e+2}"), Some(b"-12.5e+2".to_vec()));
    assert_eq!(value_of(b"{\"pre\": 9, \"objFuncVal\": 6, \"post\": 8}"), Some(b"6".to_vec()));
}

#[test]
fn similar_keys_are_not_the_field() {
    assert_eq!(value_of(b"{\"objFuncVal2\": 1}"), None);
    assert_eq!(value_of(b"{\"objfuncval\": 1}"), None);
    assert_eq!(value_of(b"{\"objFuncVa\": 1}"), None);
}
