use mcp_dispatch::{
    DispatchError, InvocationResult, McpService, Member, Payload, Reason,
};

fn text(s: &str) -> Payload {
    Payload::Text(s.to_string())
}

fn object(members: Vec<(&str, Payload)>) -> Payload {
    Payload::Object(
        members
            .into_iter()
            .map(|(name, value)| Member { name: name.to_string(), value })
            .collect(),
    )
}

fn message(s: &str) -> Payload {
    object(vec![("message", text(s))])
}

#[test]
fn echo_combines_both_messages() {
    let service = McpService::new();
    let payload = object(vec![("message", text("Hello")), ("nested_item", message("World"))]);
    assert_eq!(
        service.handle_call("echo", &payload),
        InvocationResult::Success(message("Hello World"))
    );
}

#[test]
fn echo_optional_without_the_optional_message() {
    let service = McpService::new();
    let payload = object(vec![("message", text("Hi"))]);
    assert_eq!(
        service.handle_call("echo_optional", &payload),
        InvocationResult::Success(message("Hi"))
    );
}

#[test]
fn echo_optional_with_the_optional_message() {
    let service = McpService::new();
    let payload = object(vec![("message", text("Hi")), ("optional_message", text("there"))]);
    assert_eq!(
        service.handle_call("echo_optional", &payload),
        InvocationResult::Success(message("Hi there"))
    );
}

#[test]
fn echo_optional_reads_null_as_unset() {
    let service = McpService::new();
    let payload = object(vec![("message", text("Hi")), ("optional_message", Payload::Null)]);
    assert_eq!(
        service.handle_call("echo_optional", &payload),
        InvocationResult::Success(message("Hi"))
    );
}

#[test]
fn echo_one_of_hello() {
    let service = McpService::new();
    let payload = object(vec![("one_of", object(vec![("Hello", message("x"))]))]);
    assert_eq!(
        service.handle_call("echo_one_of", &payload),
        InvocationResult::Success(message("Hello Message: x"))
    );
}

#[test]
fn echo_one_of_world() {
    let service = McpService::new();
    let payload = object(vec![("one_of", object(vec![("World", message("y"))]))]);
    assert_eq!(
        service.handle_call("echo_one_of", &payload),
        InvocationResult::Success(message("World Message: y"))
    );
}

#[test]
fn echo_one_of_takes_the_first_declared_variant_that_matches() {
    let service = McpService::new();
    let payload = object(vec![(
        "one_of",
        object(vec![("World", message("y")), ("Hello", message("x"))]),
    )]);
    assert_eq!(
        service.handle_call("echo_one_of", &payload),
        InvocationResult::Success(message("Hello Message: x"))
    );
}

#[test]
fn echo_one_of_passes_over_a_variant_that_does_not_match() {
    let service = McpService::new();
    let payload = object(vec![(
        "one_of",
        object(vec![("Hello", object(vec![])), ("World", message("y"))]),
    )]);
    assert_eq!(
        service.handle_call("echo_one_of", &payload),
        InvocationResult::Success(message("World Message: y"))
    );
}

#[test]
fn unknown_tool_is_refused() {
    let service = McpService::new();
    assert_eq!(
        service.handle_call("nonexistent", &message("x")),
        InvocationResult::Failure(DispatchError::UnknownTool { name: "nonexistent".to_string() })
    );
}

#[test]
fn missing_required_field_is_named() {
    let service = McpService::new();
    let payload = object(vec![("nested_item", message("World"))]);
    assert_eq!(
        service.handle_call("echo", &payload),
        InvocationResult::Failure(DispatchError::InvalidParameters {
            path: vec!["message".to_string()],
            reason: Reason::MissingField,
        })
    );
}

#[test]
fn missing_nested_field_is_named_with_its_container() {
    let service = McpService::new();
    let payload = object(vec![("message", text("Hello")), ("nested_item", object(vec![]))]);
    let result = service.handle_call("echo", &payload);
    assert_eq!(
        result,
        InvocationResult::Failure(DispatchError::InvalidParameters {
            path: vec!["nested_item".to_string(), "message".to_string()],
            reason: Reason::MissingField,
        })
    );
    match result {
        InvocationResult::Failure(e) => {
            assert_eq!(e.report().path, Some("nested_item.message".to_string()))
        }
        InvocationResult::Success(_) => panic!("a payload without the nested message decoded"),
    }
}

#[test]
fn first_wrong_field_is_reported() {
    let service = McpService::new();
    let payload = object(vec![("message", Payload::Int(5))]);
    assert_eq!(
        service.handle_call("echo", &payload),
        InvocationResult::Failure(DispatchError::InvalidParameters {
            path: vec!["message".to_string()],
            reason: Reason::NotA(mcp_dispatch::ScalarKind::Text),
        })
    );
}

#[test]
fn payload_that_is_no_object_is_refused() {
    let service = McpService::new();
    assert_eq!(
        service.handle_call("echo", &text("Hello")),
        InvocationResult::Failure(DispatchError::InvalidParameters {
            path: vec![],
            reason: Reason::NotAnObject,
        })
    );
}

#[test]
fn null_in_a_required_field_is_a_mismatch() {
    let service = McpService::new();
    let payload = object(vec![("message", Payload::Null)]);
    assert_eq!(
        service.handle_call("echo_optional", &payload),
        InvocationResult::Failure(DispatchError::InvalidParameters {
            path: vec!["message".to_string()],
            reason: Reason::NotA(mcp_dispatch::ScalarKind::Text),
        })
    );
}

#[test]
fn value_of_no_variant_is_refused() {
    let service = McpService::new();
    let payload = object(vec![("one_of", object(vec![("Other", message("z"))]))]);
    assert_eq!(
        service.handle_call("echo_one_of", &payload),
        InvocationResult::Failure(DispatchError::AmbiguousOrInvalidVariant {
            path: vec!["one_of".to_string()],
        })
    );
}

#[test]
fn variant_with_a_missing_field_matches_nothing() {
    let service = McpService::new();
    let payload = object(vec![("one_of", object(vec![("Hello", object(vec![]))]))]);
    assert_eq!(
        service.handle_call("echo_one_of", &payload),
        InvocationResult::Failure(DispatchError::AmbiguousOrInvalidVariant {
            path: vec!["one_of".to_string()],
        })
    );
}

#[test]
fn unknown_fields_are_ignored() {
    let service = McpService::new();
    let plain = object(vec![("message", text("Hello")), ("nested_item", message("World"))]);
    let with_more = object(vec![
        ("trace", Payload::List(vec![Payload::Int(1), Payload::Bool(true)])),
        ("message", text("Hello")),
        (
            "nested_item",
            object(vec![("message", text("World")), ("colour", text("red"))]),
        ),
        ("later", Payload::Number("1.5".to_string())),
    ]);
    assert_eq!(service.handle_call("echo", &with_more), service.handle_call("echo", &plain));
    assert_eq!(
        service.handle_call("echo", &with_more),
        InvocationResult::Success(message("Hello World"))
    );
}

#[test]
fn order_of_members_does_not_matter() {
    let service = McpService::new();
    let payload = object(vec![("nested_item", message("World")), ("message", text("Hello"))]);
    assert_eq!(
        service.handle_call("echo", &payload),
        InvocationResult::Success(message("Hello World"))
    );
}
