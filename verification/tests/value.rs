use optcore::value::{to_json_bytes, JsonVal};

#[test]
fn scalars_encode() {
    assert_eq!(to_json_bytes(&JsonVal::Null), b"null".to_vec());
    assert_eq!(to_json_bytes(&JsonVal::Bool(true)), b"true".to_vec());
    assert_eq!(to_json_bytes(&JsonVal::Bool(false)), b"false".to_vec());
    assert_eq!(to_json_bytes(&JsonVal::Num(b"-1.25e2".to_vec())), b"-1.25e2".to_vec());
    assert_eq!(to_json_bytes(&JsonVal::Str(b"ab".to_vec())), b"\"ab\"".to_vec());
}

#[test]
fn document_encodes_compactly() {
    let doc = JsonVal::Obj(vec![
        (b"x".to_vec(), JsonVal::Num(b"1".to_vec())),
        (
            b"y".to_vec(),
            JsonVal::Arr(vec![JsonVal::Null, JsonVal::Bool(true), JsonVal::Str(b"ab".to_vec())]),
        ),
    ]);
    assert_eq!(to_json_bytes(&doc), b"{\"x\":1,\"y\":[null,true,\"ab\"]}".to_vec());
}

#[test]
fn empty_containers_encode() {
    assert_eq!(to_json_bytes(&JsonVal::Arr(Vec::new())), b"[]".to_vec());
    assert_eq!(to_json_bytes(&JsonVal::Obj(Vec::new())), b"{}".to_vec());
}

#[test]
fn encoding_matches_reference_compact_form() {
    let doc = JsonVal::Obj(vec![
        (b"name".to_vec(), JsonVal::Str(b"a\\\"b".to_vec())),
        (b"vals".to_vec(), JsonVal::Arr(vec![
            JsonVal::Num(b"1".to_vec()),
            JsonVal::Num(b"2.5".to_vec()),
            JsonVal::Null,
        ])),
    ]);
    let bytes = to_json_bytes(&doc);
    let reparsed: serde_json::Value = serde_json::from_slice(&bytes).unwrap();
    assert_eq!(serde_json::to_string(&reparsed).unwrap().into_bytes(), bytes);
}
