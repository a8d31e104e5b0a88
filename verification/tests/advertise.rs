use mcp_dispatch::{
    EchoInput, EchoOptional, Member, OneOf, Payload, ScalarKind, SchemaDescriptor, Shaped,
};

fn text(s: &str) -> Payload {
    Payload::text(s)
}

fn object(members: Vec<(&str, Payload)>) -> Payload {
    Payload::object(members.into_iter().map(|(name, value)| Member::new(name, value)).collect())
}

fn of_type(name: &str) -> Payload {
    object(vec![("type", text(name))])
}

fn document(properties: Vec<(&str, Payload)>, required: Vec<&str>) -> Payload {
    object(vec![
        ("type", text("object")),
        ("properties", object(properties)),
        ("required", Payload::List(required.into_iter().map(text).collect())),
    ])
}

#[test]
fn scalars_are_described_by_their_type() {
    assert_eq!(SchemaDescriptor::Scalar(ScalarKind::Boolean).json_schema(), of_type("boolean"));
    assert_eq!(SchemaDescriptor::Scalar(ScalarKind::Integer).json_schema(), of_type("integer"));
    assert_eq!(SchemaDescriptor::Scalar(ScalarKind::Number).json_schema(), of_type("number"));
    assert_eq!(SchemaDescriptor::Scalar(ScalarKind::Text).json_schema(), of_type("string"));
}

#[test]
fn objects_are_described_by_their_properties() {
    assert_eq!(
        EchoInput::describe().json_schema(),
        document(
            vec![
                ("message", of_type("string")),
                ("nested_item", document(vec![("message", of_type("string"))], vec!["message"])),
            ],
            vec!["message", "nested_item"],
        )
    );
    assert_eq!(SchemaDescriptor::object(vec![]).json_schema(), document(vec![], vec![]));
}

#[test]
fn optional_fields_are_properties_that_are_not_required() {
    assert_eq!(
        EchoOptional::describe().json_schema(),
        document(
            vec![("message", of_type("string")), ("optional_message", of_type("string"))],
            vec!["message"],
        )
    );
}

#[test]
fn unions_are_described_by_their_variants() {
    let message = document(vec![("message", of_type("string"))], vec!["message"]);
    assert_eq!(
        OneOf::describe().json_schema(),
        object(vec![(
            "oneOf",
            Payload::List(vec![
                document(vec![("Hello", message.duplicate())], vec!["Hello"]),
                document(vec![("World", message.duplicate())], vec!["World"]),
            ]),
        )])
    );
    assert_eq!(
        SchemaDescriptor::tagged_union(vec![]).json_schema(),
        object(vec![("oneOf", Payload::List(vec![]))])
    );
}
