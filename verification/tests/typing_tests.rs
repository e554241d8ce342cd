use cozo_schema::typing::Typing;
use cozo_schema::typing::TypingError;

fn nullable(t: Typing) -> Typing {
    Typing::Nullable(Box::new(t))
}

fn homogeneous(t: Typing) -> Typing {
    Typing::Homogeneous(Box::new(t))
}

#[test]
fn display_scalars() {
    assert_eq!(Typing::Any.to_text(), "Any");
    assert_eq!(Typing::Bool.to_text(), "Bool");
    assert_eq!(Typing::Int.to_text(), "Int");
    assert_eq!(Typing::Float.to_text(), "Float");
    assert_eq!(Typing::Text.to_text(), "Text");
    assert_eq!(Typing::Uuid.to_text(), "Uuid");
}

#[test]
fn display_containers() {
    assert_eq!(nullable(Typing::Int).to_text(), "?Int");
    assert_eq!(homogeneous(Typing::Text).to_text(), "[Text]");
    assert_eq!(nullable(homogeneous(nullable(Typing::Uuid))).to_text(), "?[?Uuid]");
}

#[test]
fn display_tuples() {
    assert_eq!(Typing::UnnamedTuple(vec![]).to_text(), "()");
    assert_eq!(
        Typing::UnnamedTuple(vec![Typing::Int, nullable(Typing::Bool), Typing::Text]).to_text(),
        "(Int,?Bool,Text)"
    );
    assert_eq!(Typing::NamedTuple(vec![]).to_text(), "{}");
    assert_eq!(
        Typing::NamedTuple(vec![
            ("x".to_string(), Typing::Int),
            ("y".to_string(), nullable(Typing::Float)),
        ])
        .to_text(),
        "{\"x\":Int,\"y\":?Float}"
    );
}

#[test]
fn parse_scalars() {
    assert_eq!(Typing::from_text("Any"), Ok(Typing::Any));
    assert_eq!(Typing::from_text("Bool"), Ok(Typing::Bool));
    assert_eq!(Typing::from_text("Int"), Ok(Typing::Int));
    assert_eq!(Typing::from_text("Float"), Ok(Typing::Float));
    assert_eq!(Typing::from_text("Text"), Ok(Typing::Text));
    assert_eq!(Typing::from_text("Uuid"), Ok(Typing::Uuid));
}

#[test]
fn parse_containers() {
    assert_eq!(Typing::from_text("?Int"), Ok(nullable(Typing::Int)));
    assert_eq!(Typing::from_text("[Text]"), Ok(homogeneous(Typing::Text)));
    assert_eq!(Typing::from_text("?[Text]"), Ok(nullable(homogeneous(Typing::Text))));
}

#[test]
fn parse_tuples() {
    assert_eq!(Typing::from_text("()"), Ok(Typing::UnnamedTuple(vec![])));
    assert_eq!(
        Typing::from_text("(Int,Bool)"),
        Ok(Typing::UnnamedTuple(vec![Typing::Int, Typing::Bool]))
    );
    assert_eq!(Typing::from_text("{}"), Ok(Typing::NamedTuple(vec![])));
    assert_eq!(
        Typing::from_text("{\"x\":Int,\"y\":?Float}"),
        Ok(Typing::NamedTuple(vec![
            ("x".to_string(), Typing::Int),
            ("y".to_string(), nullable(Typing::Float)),
        ]))
    );
}

#[test]
fn parse_display_round_trip() {
    let cases = vec![
        Typing::Any,
        Typing::Uuid,
        nullable(Typing::Int),
        homogeneous(nullable(Typing::Text)),
        nullable(nullable(homogeneous(Typing::Float))),
        Typing::UnnamedTuple(vec![Typing::Int, homogeneous(Typing::Bool)]),
        Typing::NamedTuple(vec![("k".to_string(), nullable(Typing::Uuid))]),
    ];
    for t in cases {
        assert_eq!(Typing::from_text(&t.to_text()), Ok(t));
    }
}

#[test]
fn parse_undefined_type() {
    assert_eq!(Typing::from_text("Intx"), Err(TypingError::UndefinedType("Intx".to_string())));
    assert_eq!(Typing::from_text("int"), Err(TypingError::UndefinedType("int".to_string())));
}

#[test]
fn nested_undefined_type_propagates_unchanged() {
    assert_eq!(
        Typing::from_text("?[Intx]"),
        Err(TypingError::UndefinedType("Intx".to_string()))
    );
    assert_eq!(Typing::from_text("?int"), Err(TypingError::UndefinedType("int".to_string())));
    assert_eq!(
        Typing::from_text("[[wat]]"),
        Err(TypingError::UndefinedType("wat".to_string()))
    );
}

#[test]
fn parse_structural_errors() {
    assert!(matches!(Typing::from_text(""), Err(TypingError::Parse(0, _))));
    assert!(matches!(Typing::from_text("["), Err(TypingError::Parse(_, _))));
    assert!(matches!(Typing::from_text("[Int"), Err(TypingError::Parse(_, _))));
    assert!(matches!(Typing::from_text("(Int"), Err(TypingError::Parse(_, _))));
    assert!(matches!(Typing::from_text("?"), Err(TypingError::Parse(_, _))));
}

#[test]
fn parse_bad_field_identifier() {
    assert!(matches!(Typing::from_text("{\"9x\":Int}"), Err(TypingError::TextParse(_))));
    assert!(matches!(Typing::from_text("{\"\":Int}"), Err(TypingError::TextParse(_))));
}

#[test]
fn parse_rejects_trailing_comma_and_missing_colon() {
    assert!(matches!(Typing::from_text("(Int,)"), Err(TypingError::Parse(_, _))));
    assert!(matches!(Typing::from_text("{\"x\"Int}"), Err(TypingError::Parse(_, _))));
    assert!(matches!(Typing::from_text("{\"x\":Int"), Err(TypingError::Parse(_, _))));
}

#[test]
fn parse_takes_first_unit_only() {
    // Trailing input after one complete type unit is not rejected.
    assert_eq!(Typing::from_text("Int]"), Ok(Typing::Int));
    assert_eq!(Typing::from_text("[Int]extra!"), Ok(homogeneous(Typing::Int)));
}
