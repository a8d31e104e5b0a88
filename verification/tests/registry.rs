use mcp_dispatch::{
    finish, DispatchError, EchoInput, EchoOptional, EchoOutput, EchoTool, HandlerError,
    InvocationResult, Member, Payload, Reason, Registry, RegistryError, SchemaDescriptor, Shaped,
    ToolHandler,
};

/// A tool that counts its calls in the context and fails on demand.
struct Counting;

impl ToolHandler for Counting {
    type Context = u32;

    fn call(&self, context: &mut u32, input: &Payload) -> Result<Payload, HandlerError> {
        *context += 1;
        match input.get("message") {
            Some(Payload::Text(text)) if text == "fail" => {
                Err(HandlerError { code: 42, message: "asked to fail".to_string() })
            }
            _ => Ok(Payload::Object(vec![
                Member { name: "message".to_string(), value: Payload::Text("done".to_string()) },
                Member { name: "optional_message".to_string(), value: Payload::Null },
            ])),
        }
    }
}

fn counting_registry() -> Registry<Counting> {
    let mut registry = Registry::new();
    let registered = registry.register(
        "count".to_string(),
        "Counts its calls".to_string(),
        EchoInput::describe(),
        EchoOptional::describe(),
        Counting,
    );
    assert_eq!(registered, Ok(()));
    registry
}

fn message(s: &str) -> Payload {
    Payload::object(vec![Member::new("message", Payload::text(s))])
}

fn input(s: &str) -> Payload {
    Payload::object(vec![
        Member::new("message", Payload::text(s)),
        Member::new("nested_item", message("n")),
    ])
}

#[test]
fn a_new_registry_is_empty() {
    let registry: Registry<EchoTool> = Registry::new();
    assert_eq!(registry.len(), 0);
    assert!(registry.lookup("echo").is_none());
    assert_eq!(registry.index_of("echo"), None);
    assert!(registry.list().is_empty());
}

#[test]
fn lookup_returns_the_entry_that_was_registered() {
    let mut registry: Registry<EchoTool> = Registry::new();
    assert_eq!(
        registry.register(
            "first".to_string(),
            "The first".to_string(),
            EchoInput::describe(),
            EchoOutput::describe(),
            EchoTool::Echo,
        ),
        Ok(())
    );
    assert_eq!(
        registry.register(
            "second".to_string(),
            "The second".to_string(),
            EchoOptional::describe(),
            SchemaDescriptor::text(),
            EchoTool::EchoOptional,
        ),
        Ok(())
    );
    assert_eq!(registry.len(), 2);
    let first = registry.lookup("first").expect("the first tool is registered");
    assert_eq!(first.name, "first");
    assert_eq!(first.description, "The first");
    assert_eq!(first.input_schema, EchoInput::describe());
    assert_eq!(first.output_schema, EchoOutput::describe());
    assert_eq!(first.handler, EchoTool::Echo);
    let second = registry.lookup("second").expect("the second tool is registered");
    assert_eq!(second.name, "second");
    assert_eq!(second.description, "The second");
    assert_eq!(second.input_schema, EchoOptional::describe());
    assert_eq!(second.output_schema, SchemaDescriptor::text());
    assert_eq!(second.handler, EchoTool::EchoOptional);
    assert_eq!(registry.index_of("first"), Some(0));
    assert_eq!(registry.index_of("second"), Some(1));
    assert_eq!(registry.entry(1).name, "second");
    assert!(registry.lookup("third").is_none());
    assert!(registry.lookup("First").is_none());
}

#[test]
fn a_name_that_is_taken_is_refused() {
    let mut registry: Registry<EchoTool> = Registry::new();
    assert_eq!(
        registry.register(
            "echo".to_string(),
            "The first".to_string(),
            EchoInput::describe(),
            EchoOutput::describe(),
            EchoTool::Echo,
        ),
        Ok(())
    );
    assert_eq!(
        registry.register(
            "echo".to_string(),
            "The second".to_string(),
            EchoOptional::describe(),
            EchoOutput::describe(),
            EchoTool::EchoOptional,
        ),
        Err(RegistryError::DuplicateRegistration { name: "echo".to_string() })
    );
    assert_eq!(registry.len(), 1);
    let kept = registry.lookup("echo").expect("the first tool is still registered");
    assert_eq!(kept.description, "The first");
    assert_eq!(kept.handler, EchoTool::Echo);
}

#[test]
fn list_keeps_the_order_of_registration() {
    let mut registry: Registry<EchoTool> = Registry::new();
    for name in ["zeta", "alpha", "mid"] {
        assert_eq!(
            registry.register(
                name.to_string(),
                format!("The tool {}", name),
                EchoInput::describe(),
                EchoOutput::describe(),
                EchoTool::Echo,
            ),
            Ok(())
        );
    }
    let listed = registry.list();
    let names: Vec<&str> = listed.iter().map(|tool| tool.name.as_str()).collect();
    assert_eq!(names, vec!["zeta", "alpha", "mid"]);
    assert_eq!(listed[1].description, "The tool alpha");
    assert_eq!(listed[1].input_schema, EchoInput::describe());
    assert_eq!(listed[1].output_schema, EchoOutput::describe());
}

#[test]
fn resolve_decodes_for_the_named_tool() {
    let registry = counting_registry();
    assert_eq!(registry.resolve("count", &input("go")), Ok((0, input("go"))));
    assert_eq!(
        registry.resolve("other", &input("go")),
        Err(DispatchError::UnknownTool { name: "other".to_string() })
    );
    assert_eq!(
        registry.resolve("count", &message("go")),
        Err(DispatchError::InvalidParameters {
            path: vec!["nested_item".to_string()],
            reason: Reason::MissingField,
        })
    );
}

#[test]
fn the_handler_runs_once_on_a_call_that_decodes() {
    let registry = counting_registry();
    let mut calls = 0;
    assert_eq!(
        registry.dispatch(&mut calls, "count", &input("go")),
        InvocationResult::Success(message("done"))
    );
    assert_eq!(calls, 1);
}

#[test]
fn the_failure_of_a_handler_is_reported_as_it_is() {
    let registry = counting_registry();
    let mut calls = 0;
    assert_eq!(
        registry.dispatch(&mut calls, "count", &input("fail")),
        InvocationResult::Failure(DispatchError::Handler(HandlerError {
            code: 42,
            message: "asked to fail".to_string(),
        }))
    );
    assert_eq!(calls, 1);
}

#[test]
fn no_handler_runs_for_an_unknown_tool() {
    let registry = counting_registry();
    let mut calls = 0;
    assert_eq!(
        registry.dispatch(&mut calls, "nonexistent", &input("go")),
        InvocationResult::Failure(DispatchError::UnknownTool { name: "nonexistent".to_string() })
    );
    assert_eq!(calls, 0);
}

#[test]
fn no_handler_runs_for_a_payload_that_lacks_a_required_field() {
    let registry = counting_registry();
    let mut calls = 0;
    let payload = Payload::object(vec![
        Member::new("message", Payload::text("go")),
        Member::new("nested_item", Payload::object(vec![])),
    ]);
    assert_eq!(
        registry.dispatch(&mut calls, "count", &payload),
        InvocationResult::Failure(DispatchError::InvalidParameters {
            path: vec!["nested_item".to_string(), "message".to_string()],
            reason: Reason::MissingField,
        })
    );
    assert_eq!(calls, 0);
}

#[test]
fn finish_encodes_what_the_handler_returned() {
    let returned = Payload::object(vec![
        Member::new("message", Payload::text("m")),
        Member::new("optional_message", Payload::Null),
    ]);
    assert_eq!(
        finish(&EchoOptional::describe(), Ok(returned)),
        InvocationResult::Success(message("m"))
    );
    assert_eq!(
        finish(
            &EchoOptional::describe(),
            Err(HandlerError { code: -1, message: "no".to_string() })
        ),
        InvocationResult::Failure(DispatchError::Handler(HandlerError {
            code: -1,
            message: "no".to_string()
        }))
    );
}

#[test]
fn every_one_of_many_tools_is_found_under_its_name() {
    let mut registry: Registry<EchoTool> = Registry::new();
    for i in 0..300 {
        assert_eq!(
            registry.register(
                format!("tool-{}", i),
                format!("The tool number {}", i),
                EchoInput::describe(),
                EchoOutput::describe(),
                EchoTool::Echo,
            ),
            Ok(())
        );
    }
    assert_eq!(registry.len(), 300);
    for i in 0..300 {
        let name = format!("tool-{}", i);
        assert_eq!(registry.index_of(&name), Some(i));
        let entry = registry.lookup(&name).expect("the tool is registered");
        assert_eq!(entry.name, name);
        assert_eq!(entry.description, format!("The tool number {}", i));
    }
    assert_eq!(registry.index_of("tool-300"), None);
    assert_eq!(registry.index_of("tool-"), None);
    assert_eq!(registry.index_of(""), None);
    assert_eq!(
        registry.register(
            "tool-17".to_string(),
            "Once more".to_string(),
            EchoInput::describe(),
            EchoOutput::describe(),
            EchoTool::Echo,
        ),
        Err(RegistryError::DuplicateRegistration { name: "tool-17".to_string() })
    );
    assert_eq!(registry.len(), 300);
}

#[test]
fn names_that_are_not_ascii_are_found_too() {
    let mut registry: Registry<EchoTool> = Registry::new();
    for name in ["échó", "echo", "回声", ""] {
        assert_eq!(
            registry.register(
                name.to_string(),
                String::new(),
                EchoInput::describe(),
                EchoOutput::describe(),
                EchoTool::Echo,
            ),
            Ok(())
        );
    }
    assert_eq!(registry.index_of("échó"), Some(0));
    assert_eq!(registry.index_of("echo"), Some(1));
    assert_eq!(registry.index_of("回声"), Some(2));
    assert_eq!(registry.index_of(""), Some(3));
    assert_eq!(registry.index_of("回"), None);
}
