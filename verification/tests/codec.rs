use mcp_dispatch::{
    decode, decode_as, encode, encode_from, find, join_path, DispatchError, EchoInput, EchoOneOf,
    EchoOptional, EchoOutput, ErrorKind, Field, HandlerError, Hello, Member, NestedItem, OneOf,
    Payload, Reason, ScalarKind, SchemaDescriptor, Shaped, StructuredError, Variant, World,
};

fn text(s: &str) -> Payload {
    Payload::text(s)
}

fn object(members: Vec<(&str, Payload)>) -> Payload {
    Payload::object(members.into_iter().map(|(name, value)| Member::new(name, value)).collect())
}

fn point_schema() -> SchemaDescriptor {
    SchemaDescriptor::object(vec![
        Field::required("x", SchemaDescriptor::Scalar(ScalarKind::Integer)),
        Field::optional("label", SchemaDescriptor::text()),
        Field::required("weight", SchemaDescriptor::Scalar(ScalarKind::Number)),
        Field::optional("on", SchemaDescriptor::Scalar(ScalarKind::Boolean)),
    ])
}

#[test]
fn decode_gives_the_declared_fields_in_declared_order() {
    let payload = object(vec![
        ("weight", Payload::Number("2.5".to_string())),
        ("extra", text("ignored")),
        ("x", Payload::Int(3)),
    ]);
    assert_eq!(
        decode(&point_schema(), &payload),
        Ok(object(vec![
            ("x", Payload::Int(3)),
            ("label", Payload::Null),
            ("weight", Payload::Number("2.5".to_string())),
            ("on", Payload::Null),
        ]))
    );
}

#[test]
fn an_integer_is_a_number() {
    let payload = object(vec![("x", Payload::Int(3)), ("weight", Payload::Int(2))]);
    assert_eq!(
        decode(&point_schema(), &payload),
        Ok(object(vec![
            ("x", Payload::Int(3)),
            ("label", Payload::Null),
            ("weight", Payload::Int(2)),
            ("on", Payload::Null),
        ]))
    );
}

#[test]
fn a_number_that_is_no_integer_is_no_integer() {
    let payload =
        object(vec![("x", Payload::Number("3.5".to_string())), ("weight", Payload::Int(2))]);
    assert_eq!(
        decode(&point_schema(), &payload),
        Err(DispatchError::InvalidParameters {
            path: vec!["x".to_string()],
            reason: Reason::NotA(ScalarKind::Integer),
        })
    );
}

#[test]
fn each_scalar_kind_refuses_the_others() {
    let boolean = SchemaDescriptor::Scalar(ScalarKind::Boolean);
    let number = SchemaDescriptor::Scalar(ScalarKind::Number);
    assert_eq!(decode(&boolean, &Payload::Bool(true)), Ok(Payload::Bool(true)));
    assert_eq!(
        decode(&boolean, &Payload::Int(1)),
        Err(DispatchError::InvalidParameters {
            path: vec![],
            reason: Reason::NotA(ScalarKind::Boolean)
        })
    );
    assert_eq!(
        decode(&number, &text("1")),
        Err(DispatchError::InvalidParameters {
            path: vec![],
            reason: Reason::NotA(ScalarKind::Number)
        })
    );
    assert_eq!(
        decode(&SchemaDescriptor::text(), &Payload::List(vec![])),
        Err(DispatchError::InvalidParameters {
            path: vec![],
            reason: Reason::NotA(ScalarKind::Text)
        })
    );
}

#[test]
fn the_first_of_two_members_of_one_name_counts() {
    let schema = SchemaDescriptor::object(vec![Field::required("a", SchemaDescriptor::text())]);
    let payload = object(vec![("a", text("first")), ("a", text("second"))]);
    assert_eq!(decode(&schema, &payload), Ok(object(vec![("a", text("first"))])));
}

#[test]
fn find_and_get_go_by_the_name() {
    let payload = object(vec![("a", text("1")), ("b", text("2")), ("a", text("3"))]);
    match &payload {
        Payload::Object(members) => {
            assert_eq!(find(members, "a"), Some(0));
            assert_eq!(find(members, "b"), Some(1));
            assert_eq!(find(members, "c"), None);
            assert_eq!(find(members, ""), None);
        }
        _ => panic!("an object was built"),
    }
    assert_eq!(payload.get("b"), Some(&text("2")));
    assert_eq!(payload.get("B"), None);
    assert_eq!(text("b").get("b"), None);
}

#[test]
fn overlapping_variants_are_decided_by_declaration_order() {
    let either = SchemaDescriptor::tagged_union(vec![
        Variant::new(
            "Wide",
            SchemaDescriptor::object(vec![Field::optional("note", SchemaDescriptor::text())]),
        ),
        Variant::new(
            "Narrow",
            SchemaDescriptor::object(vec![Field::required("note", SchemaDescriptor::text())]),
        ),
    ]);
    let reversed = SchemaDescriptor::tagged_union(vec![
        Variant::new(
            "Narrow",
            SchemaDescriptor::object(vec![Field::required("note", SchemaDescriptor::text())]),
        ),
        Variant::new(
            "Wide",
            SchemaDescriptor::object(vec![Field::optional("note", SchemaDescriptor::text())]),
        ),
    ]);
    let both = object(vec![
        ("Narrow", object(vec![("note", text("n"))])),
        ("Wide", object(vec![("note", text("w"))])),
    ]);
    let wide = Ok(object(vec![("Wide", object(vec![("note", text("w"))]))]));
    let narrow = Ok(object(vec![("Narrow", object(vec![("note", text("n"))]))]));
    for _ in 0..3 {
        assert_eq!(decode(&either, &both), wide);
        assert_eq!(decode(&reversed, &both), narrow);
    }
}

#[test]
fn a_union_value_that_is_no_object_matches_nothing() {
    assert_eq!(
        decode(&OneOf::describe(), &text("Hello")),
        Err(DispatchError::AmbiguousOrInvalidVariant { path: vec![] })
    );
}

#[test]
fn encode_leaves_out_what_is_unset() {
    let typed = object(vec![
        ("x", Payload::Int(3)),
        ("label", Payload::Null),
        ("weight", Payload::Int(2)),
        ("on", Payload::Bool(false)),
    ]);
    assert_eq!(
        encode(&point_schema(), &typed),
        object(vec![
            ("x", Payload::Int(3)),
            ("weight", Payload::Int(2)),
            ("on", Payload::Bool(false)),
        ])
    );
}

#[test]
fn encode_writes_what_has_another_shape_as_it_is() {
    let list = Payload::List(vec![Payload::Null, text("a"), object(vec![("k", Payload::Int(1))])]);
    assert_eq!(encode(&point_schema(), &list), list);
    assert_eq!(encode(&OneOf::describe(), &list), list);
    assert_eq!(encode(&SchemaDescriptor::text(), &list), list);
    let two = object(vec![("Hello", text("a")), ("World", text("b"))]);
    assert_eq!(encode(&OneOf::describe(), &two), two);
    let other = object(vec![("Other", object(vec![("message", text("a")), ("k", text("b"))]))]);
    assert_eq!(encode(&OneOf::describe(), &other), other);
}

#[test]
fn encode_writes_a_union_value_along_its_variant() {
    let value = object(vec![("World", object(vec![("more", text("m")), ("message", text("y"))]))]);
    assert_eq!(
        encode(&OneOf::describe(), &value),
        object(vec![("World", object(vec![("message", text("y"))]))])
    );
}

#[test]
fn typed_values_come_back_from_a_round_trip() {
    let schema = point_schema();
    let typed = object(vec![
        ("x", Payload::Int(-7)),
        ("label", Payload::Null),
        ("weight", Payload::Number("1e3".to_string())),
        ("on", Payload::Bool(true)),
    ]);
    assert_eq!(decode(&schema, &encode(&schema, &typed)), Ok(typed));
}

#[test]
fn outputs_come_back_from_a_round_trip() {
    let output = EchoOutput { message: "Hello World".to_string() };
    assert_eq!(decode_as::<EchoOutput>(&encode_from(&output)), Ok(output));
}

#[test]
fn inputs_come_back_from_a_round_trip() {
    let echo = EchoInput {
        message: "a".to_string(),
        nested_item: NestedItem { message: "b".to_string() },
    };
    let unset = EchoOptional { message: "a".to_string(), optional_message: None };
    let set = EchoOptional { message: "a".to_string(), optional_message: Some("b".to_string()) };
    let hello = EchoOneOf { one_of: OneOf::Hello(Hello { message: "h".to_string() }) };
    let world = EchoOneOf { one_of: OneOf::World(World { message: "w".to_string() }) };
    assert_eq!(decode_as::<EchoInput>(&encode_from(&echo)), Ok(echo));
    assert_eq!(encode_from(&unset), object(vec![("message", text("a"))]));
    assert_eq!(decode_as::<EchoOptional>(&encode_from(&unset)), Ok(unset));
    assert_eq!(decode_as::<EchoOptional>(&encode_from(&set)), Ok(set));
    assert_eq!(decode_as::<EchoOneOf>(&encode_from(&hello)), Ok(hello));
    assert_eq!(decode_as::<EchoOneOf>(&encode_from(&world)), Ok(world));
}

#[test]
fn typed_payloads_are_read_and_others_are_not() {
    let output = EchoOutput { message: "m".to_string() };
    assert_eq!(output.to_typed(), object(vec![("message", text("m"))]));
    assert_eq!(EchoOutput::from_typed(&output.to_typed()), Some(output));
    assert_eq!(EchoOutput::from_typed(&object(vec![("massage", text("m"))])), None);
    assert_eq!(EchoOutput::from_typed(&object(vec![("message", Payload::Int(1))])), None);
    assert_eq!(EchoOutput::from_typed(&object(vec![])), None);
    assert_eq!(EchoOutput::from_typed(&text("m")), None);
    assert_eq!(
        EchoOptional::from_typed(&object(vec![("message", text("m"))])),
        None
    );
    assert_eq!(
        OneOf::from_typed(&object(vec![("World", object(vec![("message", text("w"))]))])),
        Some(OneOf::World(World { message: "w".to_string() }))
    );
    assert_eq!(OneOf::from_typed(&object(vec![("Other", text("w"))])), None);
}

#[test]
fn decode_as_reports_what_decode_reports() {
    let payload = object(vec![("message", text("a")), ("nested_item", text("b"))]);
    assert_eq!(
        decode_as::<EchoInput>(&payload),
        Err(DispatchError::InvalidParameters {
            path: vec!["nested_item".to_string()],
            reason: Reason::NotAnObject,
        })
    );
}

#[test]
fn schemas_of_the_sample_types() {
    let message = SchemaDescriptor::object(vec![Field::required(
        "message",
        SchemaDescriptor::Scalar(ScalarKind::Text),
    )]);
    assert_eq!(EchoOutput::describe(), message);
    assert_eq!(NestedItem::describe(), message);
    assert_eq!(
        EchoInput::describe(),
        SchemaDescriptor::Object(vec![
            Field {
                name: "message".to_string(),
                schema: SchemaDescriptor::Scalar(ScalarKind::Text),
                required: true
            },
            Field {
                name: "nested_item".to_string(),
                schema: NestedItem::describe(),
                required: true,
            },
        ])
    );
    assert_eq!(
        OneOf::describe(),
        SchemaDescriptor::TaggedUnion(vec![
            Variant { name: "Hello".to_string(), schema: Hello::describe() },
            Variant { name: "World".to_string(), schema: World::describe() },
        ])
    );
    assert_eq!(
        EchoOptional::describe(),
        SchemaDescriptor::object(vec![
            Field::required("message", SchemaDescriptor::text()),
            Field::optional("optional_message", SchemaDescriptor::text()),
        ])
    );
}

#[test]
fn well_formed_means_distinct_names_at_every_level() {
    assert!(EchoInput::describe().is_well_formed());
    assert!(EchoOneOf::describe().is_well_formed());
    assert!(point_schema().is_well_formed());
    assert!(SchemaDescriptor::object(vec![]).is_well_formed());
    let twice = SchemaDescriptor::object(vec![
        Field::required("a", SchemaDescriptor::text()),
        Field::required("b", SchemaDescriptor::text()),
        Field::optional("a", SchemaDescriptor::text()),
    ]);
    assert!(!twice.is_well_formed());
    let inside = SchemaDescriptor::tagged_union(vec![
        Variant::new("A", SchemaDescriptor::text()),
        Variant::new("B", point_schema()),
        Variant::new("C", SchemaDescriptor::object(vec![Field::required("f", twice.duplicate())])),
    ]);
    assert!(!inside.is_well_formed());
    let same_variants = SchemaDescriptor::tagged_union(vec![
        Variant::new("A", SchemaDescriptor::text()),
        Variant::new("A", point_schema()),
    ]);
    assert!(!same_variants.is_well_formed());
}

#[test]
fn duplicates_are_equal_to_what_they_copy() {
    let payload = object(vec![
        ("a", Payload::List(vec![Payload::Null, Payload::Bool(true), Payload::Int(-1)])),
        ("b", object(vec![("c", Payload::Number("0.5".to_string()))])),
    ]);
    assert_eq!(payload.duplicate(), payload);
    assert_eq!(EchoOneOf::describe().duplicate(), EchoOneOf::describe());
}

#[test]
fn paths_are_joined_with_dots() {
    assert_eq!(join_path(&vec![]), "");
    assert_eq!(join_path(&vec!["a".to_string()]), "a");
    assert_eq!(
        join_path(&vec!["nested_item".to_string(), "message".to_string()]),
        "nested_item.message"
    );
    assert_eq!(
        join_path(&vec!["a".to_string(), String::new(), "c".to_string()]),
        "a..c"
    );
}

#[test]
fn errors_move_outwards_by_one_name() {
    let inner = DispatchError::InvalidParameters {
        path: vec!["message".to_string()],
        reason: Reason::MissingField,
    };
    assert_eq!(
        inner.under("nested_item"),
        DispatchError::InvalidParameters {
            path: vec!["nested_item".to_string(), "message".to_string()],
            reason: Reason::MissingField,
        }
    );
    assert_eq!(
        DispatchError::AmbiguousOrInvalidVariant { path: vec![] }.under("one_of"),
        DispatchError::AmbiguousOrInvalidVariant { path: vec!["one_of".to_string()] }
    );
    assert_eq!(
        DispatchError::UnknownTool { name: "t".to_string() }.under("x"),
        DispatchError::UnknownTool { name: "t".to_string() }
    );
}

#[test]
fn reports_have_a_kind_a_detail_and_a_path() {
    assert_eq!(
        DispatchError::UnknownTool { name: "nonexistent".to_string() }.report(),
        StructuredError {
            kind: ErrorKind::UnknownTool,
            detail: "nonexistent".to_string(),
            path: None
        }
    );
    assert_eq!(
        DispatchError::InvalidParameters {
            path: vec!["nested_item".to_string(), "message".to_string()],
            reason: Reason::MissingField,
        }
        .report(),
        StructuredError {
            kind: ErrorKind::InvalidParameters,
            detail: "missing required field".to_string(),
            path: Some("nested_item.message".to_string()),
        }
    );
    assert_eq!(
        DispatchError::InvalidParameters { path: vec![], reason: Reason::NotAnObject }.report(),
        StructuredError {
            kind: ErrorKind::InvalidParameters,
            detail: "expected an object".to_string(),
            path: None,
        }
    );
    let kinds = [
        (ScalarKind::Boolean, "expected a boolean"),
        (ScalarKind::Integer, "expected an integer"),
        (ScalarKind::Number, "expected a number"),
        (ScalarKind::Text, "expected a string"),
    ];
    for (kind, detail) in kinds {
        assert_eq!(
            DispatchError::InvalidParameters {
                path: vec!["f".to_string()],
                reason: Reason::NotA(kind)
            }
            .report(),
            StructuredError {
                kind: ErrorKind::InvalidParameters,
                detail: detail.to_string(),
                path: Some("f".to_string()),
            }
        );
    }
    assert_eq!(
        DispatchError::AmbiguousOrInvalidVariant { path: vec!["one_of".to_string()] }.report(),
        StructuredError {
            kind: ErrorKind::AmbiguousOrInvalidVariant,
            detail: "no variant matches".to_string(),
            path: Some("one_of".to_string()),
        }
    );
    assert_eq!(
        DispatchError::Handler(HandlerError { code: 7, message: "out of paper".to_string() })
            .report(),
        StructuredError {
            kind: ErrorKind::HandlerError,
            detail: "out of paper".to_string(),
            path: None,
        }
    );
}
