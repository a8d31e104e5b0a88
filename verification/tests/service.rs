use mcp_dispatch::{
    Capabilities, EchoInput, EchoOneOf, EchoOptional, EchoOutput, EchoTool, Hello, McpService,
    NestedItem, OneOf, Payload, Session, Shaped, ToolHandler, ToolsCapability, World,
    MALFORMED_INPUT,
};

#[test]
fn echo_puts_a_space_between_the_messages() {
    let service = McpService::new();
    let params = EchoInput {
        message: "Hello".to_string(),
        nested_item: NestedItem { message: "World".to_string() },
    };
    assert_eq!(service.echo(params), Ok(EchoOutput { message: "Hello World".to_string() }));
}

#[test]
fn echo_of_empty_messages_is_one_space() {
    let service = McpService::new();
    let params =
        EchoInput { message: String::new(), nested_item: NestedItem { message: String::new() } };
    assert_eq!(service.echo(params), Ok(EchoOutput { message: " ".to_string() }));
}

#[test]
fn echo_one_of_names_the_variant() {
    let service = McpService::new();
    let hello = EchoOneOf { one_of: OneOf::Hello(Hello { message: "x".to_string() }) };
    let world = EchoOneOf { one_of: OneOf::World(World { message: "y".to_string() }) };
    assert_eq!(
        service.echo_one_of(hello),
        Ok(EchoOutput { message: "Hello Message: x".to_string() })
    );
    assert_eq!(
        service.echo_one_of(world),
        Ok(EchoOutput { message: "World Message: y".to_string() })
    );
}

#[test]
fn echo_optional_appends_what_is_set() {
    let service = McpService::new();
    let unset = EchoOptional { message: "Hi".to_string(), optional_message: None };
    let set =
        EchoOptional { message: "Hi".to_string(), optional_message: Some("there".to_string()) };
    assert_eq!(service.echo_optional(unset), Ok(EchoOutput { message: "Hi".to_string() }));
    assert_eq!(service.echo_optional(set), Ok(EchoOutput { message: "Hi there".to_string() }));
}

#[test]
fn info_offers_tools_and_says_when_their_list_changes() {
    let info = McpService::new().get_info();
    assert_eq!(info.instructions, Some("A tool to echo messages".to_string()));
    assert_eq!(
        info.capabilities,
        Capabilities { tools: Some(ToolsCapability { list_changed: Some(true) }) }
    );
}

#[test]
fn initialize_keeps_the_peer_that_came_first() {
    let service = McpService::new();
    let mut session: Session<String> = Session::new();
    assert_eq!(session.peer, None);
    let first = service.initialize(&mut session, "first".to_string());
    assert_eq!(session.peer, Some("first".to_string()));
    let second = service.initialize(&mut session, "second".to_string());
    assert_eq!(session.peer, Some("first".to_string()));
    assert_eq!(first, second);
    assert_eq!(first, service.get_info());
}

#[test]
fn tools_are_listed_in_registration_order() {
    let tools = McpService::new().list_tools();
    let names: Vec<&str> = tools.iter().map(|tool| tool.name.as_str()).collect();
    assert_eq!(names, vec!["echo", "echo_one_of", "echo_optional"]);
    assert_eq!(
        tools[0].description,
        "Takes the input and combines it into a single output message"
    );
    assert_eq!(tools[1].description, "Echoes a one-of value");
    assert_eq!(tools[2].description, "Echoes an optional value");
    assert_eq!(tools[0].input_schema, EchoInput::describe());
    assert_eq!(tools[1].input_schema, EchoOneOf::describe());
    assert_eq!(tools[2].input_schema, EchoOptional::describe());
    for tool in &tools {
        assert_eq!(tool.output_schema, EchoOutput::describe());
    }
}

#[test]
fn handler_refuses_what_is_no_typed_input() {
    let mut context = ();
    let outcome = EchoTool::Echo.call(&mut context, &Payload::Text("Hello".to_string()));
    match outcome {
        Err(e) => {
            assert_eq!(e.code, MALFORMED_INPUT);
            assert_eq!(e.code, -32602);
            assert_eq!(e.message, "input does not have the declared shape");
        }
        Ok(_) => panic!("a string was taken for the input of echo"),
    }
}

#[test]
fn handler_runs_on_a_typed_input() {
    let mut context = ();
    let input = EchoOptional { message: "Hi".to_string(), optional_message: None }.to_typed();
    let outcome = EchoTool::EchoOptional.call(&mut context, &input);
    assert_eq!(outcome, Ok(EchoOutput { message: "Hi".to_string() }.to_typed()));
}
