use cozo_schema::attr::Attribute;
use cozo_schema::attr::AttributeCardinality;
use cozo_schema::attr::AttributeIndex;
use cozo_schema::attr::ConvError;
use cozo_schema::attr::IdKind;
use cozo_schema::id::AttrId;
use cozo_schema::id::EntityId;
use cozo_schema::id::TxId;
use cozo_schema::json::JsonVal;
use cozo_schema::keyword::Keyword;
use cozo_schema::typing::Typing;

fn def(entries: Vec<(&str, JsonVal)>) -> JsonVal {
    JsonVal::Obj(entries.into_iter().map(|(k, v)| (k.to_string(), v)).collect())
}

#[test]
fn full_definition_validates() {
    let j = def(vec![
        ("id", JsonVal::NumInt(12)),
        ("keyword", JsonVal::Str("person/name".to_string())),
        ("cardinality", JsonVal::Str("one".to_string())),
        ("type", JsonVal::Str("?[Text]".to_string())),
        ("index", JsonVal::Str("unique".to_string())),
        ("history", JsonVal::Bool(false)),
    ]);
    let a = Attribute::from_json(&j).unwrap();
    assert_eq!(a.id, AttrId(12));
    assert_eq!(a.keyword, Keyword::new("person/name"));
    assert_eq!(a.cardinality, AttributeCardinality::One);
    assert_eq!(
        a.val_type,
        Typing::Nullable(Box::new(Typing::Homogeneous(Box::new(Typing::Text))))
    );
    assert_eq!(a.indexing, AttributeIndex::Unique);
    assert!(!a.with_history);
}

#[test]
fn optional_fields_take_defaults() {
    let j = def(vec![
        ("keyword", JsonVal::Str("k".to_string())),
        ("cardinality", JsonVal::Str("many".to_string())),
        ("type", JsonVal::Str("Int".to_string())),
    ]);
    let a = Attribute::from_json(&j).unwrap();
    assert_eq!(a.id, AttrId(0));
    assert_eq!(a.indexing, AttributeIndex::NoIndex);
    assert!(a.with_history);
}

#[test]
fn missing_keyword_fails_naming_the_field() {
    let j = def(vec![
        ("cardinality", JsonVal::Str("one".to_string())),
        ("type", JsonVal::Str("Int".to_string())),
    ]);
    match Attribute::from_json(&j) {
        Err(ConvError::MissingField(f, _)) => assert_eq!(f, "keyword"),
        other => panic!("unexpected result: {:?}", other),
    }
}

#[test]
fn reserved_keyword_fails() {
    let j = def(vec![
        ("keyword", JsonVal::Str("_secret".to_string())),
        ("cardinality", JsonVal::Str("one".to_string())),
        ("type", JsonVal::Str("Int".to_string())),
    ]);
    assert_eq!(
        Attribute::from_json(&j),
        Err(ConvError::ReservedKeyword("_secret".to_string()))
    );
}

#[test]
fn unrecognized_cardinality_fails_naming_the_value() {
    let j = def(vec![
        ("keyword", JsonVal::Str("k".to_string())),
        ("cardinality", JsonVal::Str("several".to_string())),
        ("type", JsonVal::Str("Int".to_string())),
    ]);
    assert_eq!(
        Attribute::from_json(&j),
        Err(ConvError::BadCardinality("several".to_string()))
    );
}

#[test]
fn bad_type_text_propagates_parser_failure() {
    let j = def(vec![
        ("keyword", JsonVal::Str("k".to_string())),
        ("cardinality", JsonVal::Str("one".to_string())),
        ("type", JsonVal::Str("Quux".to_string())),
    ]);
    assert!(matches!(Attribute::from_json(&j), Err(ConvError::Typing(_))));
}

#[test]
fn index_forms() {
    let base = |ix: JsonVal| {
        def(vec![
            ("keyword", JsonVal::Str("k".to_string())),
            ("cardinality", JsonVal::Str("one".to_string())),
            ("type", JsonVal::Str("Int".to_string())),
            ("index", ix),
        ])
    };
    assert_eq!(
        Attribute::from_json(&base(JsonVal::Bool(true))).unwrap().indexing,
        AttributeIndex::Indexed
    );
    assert_eq!(
        Attribute::from_json(&base(JsonVal::Bool(false))).unwrap().indexing,
        AttributeIndex::NoIndex
    );
    assert_eq!(
        Attribute::from_json(&base(JsonVal::Str("identity".to_string()))).unwrap().indexing,
        AttributeIndex::Identity
    );
    assert!(matches!(
        Attribute::from_json(&base(JsonVal::NumInt(5))),
        Err(ConvError::BadIndex(_))
    ));
    assert!(matches!(
        Attribute::from_json(&base(JsonVal::Str("sometimes".to_string()))),
        Err(ConvError::BadIndex(_))
    ));
}

#[test]
fn wrong_field_shapes_fail_naming_the_field() {
    let base = vec![
        ("keyword", JsonVal::Str("k".to_string())),
        ("cardinality", JsonVal::Str("one".to_string())),
        ("type", JsonVal::Str("Int".to_string())),
    ];
    let with = |k: &str, v: JsonVal| {
        let mut es = base.clone();
        es.retain(|(n, _)| *n != k);
        es.push((k, v));
        def(es)
    };
    match Attribute::from_json(&with("keyword", JsonVal::NumInt(1))) {
        Err(ConvError::BadField(f, _)) => assert_eq!(f, "keyword"),
        other => panic!("unexpected result: {:?}", other),
    }
    match Attribute::from_json(&with("cardinality", JsonVal::Bool(true))) {
        Err(ConvError::BadField(f, _)) => assert_eq!(f, "cardinality"),
        other => panic!("unexpected result: {:?}", other),
    }
    match Attribute::from_json(&with("type", JsonVal::Null)) {
        Err(ConvError::BadField(f, _)) => assert_eq!(f, "type"),
        other => panic!("unexpected result: {:?}", other),
    }
    match Attribute::from_json(&with("history", JsonVal::Str("yes".to_string()))) {
        Err(ConvError::BadField(f, _)) => assert_eq!(f, "history"),
        other => panic!("unexpected result: {:?}", other),
    }
}

#[test]
fn missing_cardinality_and_type_fail_naming_the_field() {
    let j = def(vec![
        ("keyword", JsonVal::Str("k".to_string())),
        ("type", JsonVal::Str("Int".to_string())),
    ]);
    match Attribute::from_json(&j) {
        Err(ConvError::MissingField(f, _)) => assert_eq!(f, "cardinality"),
        other => panic!("unexpected result: {:?}", other),
    }
    let j = def(vec![
        ("keyword", JsonVal::Str("k".to_string())),
        ("cardinality", JsonVal::Str("one".to_string())),
    ]);
    match Attribute::from_json(&j) {
        Err(ConvError::MissingField(f, _)) => assert_eq!(f, "type"),
        other => panic!("unexpected result: {:?}", other),
    }
}

#[test]
fn bad_id_fails_before_other_fields() {
    let j = def(vec![
        ("id", JsonVal::NumInt(-4)),
        ("cardinality", JsonVal::Str("one".to_string())),
        ("type", JsonVal::Str("Int".to_string())),
    ]);
    assert!(matches!(
        Attribute::from_json(&j),
        Err(ConvError::BadId(IdKind::Attr, _))
    ));
}

#[test]
fn undefined_type_text_propagates_into_definition_errors() {
    let j = def(vec![
        ("keyword", JsonVal::Str("k".to_string())),
        ("cardinality", JsonVal::Str("one".to_string())),
        ("type", JsonVal::Str("Quux".to_string())),
    ]);
    match Attribute::from_json(&j) {
        Err(ConvError::Typing(cozo_schema::typing::TypingError::UndefinedType(w))) => {
            assert_eq!(w, "Quux")
        }
        other => panic!("unexpected result: {:?}", other),
    }
}

#[test]
fn non_object_definition_fails() {
    assert!(matches!(
        Attribute::from_json(&JsonVal::NumInt(1)),
        Err(ConvError::NotAnObject(_))
    ));
}

#[test]
fn export_emits_all_six_fields() {
    let a = Attribute {
        id: AttrId(3),
        keyword: Keyword::new("k"),
        cardinality: AttributeCardinality::Many,
        val_type: Typing::Homogeneous(Box::new(Typing::Int)),
        indexing: AttributeIndex::Indexed,
        with_history: true,
    };
    let j = a.to_json();
    assert_eq!(
        j,
        JsonVal::Obj(vec![
            ("id".to_string(), JsonVal::NumUint(3)),
            ("keyword".to_string(), JsonVal::Str("k".to_string())),
            ("cardinality".to_string(), JsonVal::Str("many".to_string())),
            ("type".to_string(), JsonVal::Str("[Int]".to_string())),
            ("index".to_string(), JsonVal::Str("indexed".to_string())),
            ("history".to_string(), JsonVal::Bool(true)),
        ])
    );
    // The exported definition validates back to the same record.
    assert_eq!(Attribute::from_json(&j).unwrap(), a);
}

#[test]
fn id_conversions() {
    assert_eq!(AttrId::from_json(&JsonVal::NumInt(42)), Ok(AttrId(42)));
    assert_eq!(EntityId::from_json(&JsonVal::NumInt(42)), Ok(EntityId(42)));
    assert_eq!(TxId::from_json(&JsonVal::NumInt(42)), Ok(TxId(42)));
    assert_eq!(AttrId::from_json(&JsonVal::NumUint(u64::MAX)), Ok(AttrId(u64::MAX)));
}

#[test]
fn id_conversion_failures() {
    let s = JsonVal::Str("42".to_string());
    assert!(matches!(
        AttrId::from_json(&s),
        Err(ConvError::BadId(IdKind::Attr, _))
    ));
    assert!(matches!(
        EntityId::from_json(&JsonVal::NumInt(-1)),
        Err(ConvError::BadId(IdKind::Entity, _))
    ));
    assert!(matches!(
        TxId::from_json(&JsonVal::Bool(true)),
        Err(ConvError::BadId(IdKind::Tx, _))
    ));
}

#[test]
fn keyword_reservation() {
    assert!(Keyword::new("_db").is_reserved());
    assert!(!Keyword::new("db").is_reserved());
    assert!(!Keyword::new("").is_reserved());
    assert_eq!(Keyword::new("person/name").to_text(), "person/name");
}
