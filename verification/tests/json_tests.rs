use cozo_schema::id::EntityId;
use cozo_schema::json::DataValue;
use cozo_schema::json::JsonVal;
use cozo_schema::keyword::Keyword;

#[test]
fn export_then_import_is_identity_on_plain_values() {
    let cases = vec![
        DataValue::Null,
        DataValue::Bool(true),
        DataValue::Int(-42),
        DataValue::Float(0x4004000000000000),
        DataValue::String("hello".to_string()),
        DataValue::List(vec![
            DataValue::Int(1),
            DataValue::List(vec![DataValue::Null, DataValue::String("x".to_string())]),
        ]),
    ];
    for d in cases {
        let j = d.to_json();
        assert_eq!(DataValue::from_json(&j), d);
    }
}

#[test]
fn import_then_export_is_identity_on_plain_json() {
    let j = JsonVal::Arr(vec![
        JsonVal::Null,
        JsonVal::Bool(false),
        JsonVal::NumInt(7),
        JsonVal::NumFloat(0x3ff0000000000000),
        JsonVal::Str("s".to_string()),
        JsonVal::Arr(vec![JsonVal::NumInt(0)]),
    ]);
    let d = DataValue::from_json(&j);
    assert_eq!(d.to_json(), j);
}

#[test]
fn uuid_exports_as_canonical_text() {
    let d = DataValue::Uuid(0x936DA01F9ABD4D9D80C702AF85C822A8);
    assert_eq!(
        d.to_json(),
        JsonVal::Str("936da01f-9abd-4d9d-80c7-02af85c822a8".to_string())
    );
    assert_eq!(
        DataValue::Uuid(0).to_json(),
        JsonVal::Str("00000000-0000-0000-0000-000000000000".to_string())
    );
}

#[test]
fn bytes_export_as_base64_text() {
    assert_eq!(
        DataValue::Bytes(vec![1, 2, 3]).to_json(),
        JsonVal::Str("AQID".to_string())
    );
    assert_eq!(
        DataValue::Bytes(b"hello world".to_vec()).to_json(),
        JsonVal::Str("aGVsbG8gd29ybGQ=".to_string())
    );
    assert_eq!(DataValue::Bytes(vec![]).to_json(), JsonVal::Str("".to_string()));
}

#[test]
fn wrapper_and_sentinel_exports() {
    let wrapped = DataValue::DescVal(Box::new(DataValue::Int(3)));
    assert_eq!(wrapped.to_json(), JsonVal::NumInt(3));
    assert_eq!(DataValue::Bottom.to_json(), JsonVal::Null);
}

#[test]
fn id_keyword_timestamp_exports() {
    assert_eq!(DataValue::EnId(EntityId(7)).to_json(), JsonVal::NumUint(7));
    assert_eq!(
        DataValue::EnId(EntityId(u64::MAX)).to_json(),
        JsonVal::NumUint(u64::MAX)
    );
    assert_eq!(
        DataValue::Keyword(Keyword::new("person/name")).to_json(),
        JsonVal::Str("person/name".to_string())
    );
    assert_eq!(DataValue::Timestamp(-5).to_json(), JsonVal::NumInt(-5));
}

#[test]
fn object_imports_as_list_of_pairs() {
    let j = JsonVal::Obj(vec![
        ("a".to_string(), JsonVal::Null),
        ("b".to_string(), JsonVal::NumInt(1)),
    ]);
    assert_eq!(
        DataValue::from_json(&j),
        DataValue::List(vec![
            DataValue::List(vec![DataValue::String("a".to_string()), DataValue::Null]),
            DataValue::List(vec![DataValue::String("b".to_string()), DataValue::Int(1)]),
        ])
    );
}

#[test]
fn number_imports() {
    assert_eq!(DataValue::from_json(&JsonVal::NumInt(-9)), DataValue::Int(-9));
    assert_eq!(DataValue::from_json(&JsonVal::NumUint(9)), DataValue::Int(9));
    // An unsigned number beyond the signed range takes the text fallback.
    assert_eq!(
        DataValue::from_json(&JsonVal::NumUint(u64::MAX)),
        DataValue::String("18446744073709551615".to_string())
    );
    assert_eq!(
        DataValue::from_json(&JsonVal::NumText("1e999".to_string())),
        DataValue::String("1e999".to_string())
    );
    assert_eq!(
        DataValue::from_json(&JsonVal::NumFloat(0x4000000000000000)),
        DataValue::Float(0x4000000000000000)
    );
}
