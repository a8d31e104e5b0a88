//! The sample service: three echo tools behind one registry.

use crate::capabilities::{
    build_tool_capabilities, tools_with_list_changed, ServerInfo, ServerInfoView,
};
use crate::decode::decode_spec;
use crate::dispatch::{finish_spec, resolve_spec, InvocationResult, InvocationResultView};
use crate::error::{DispatchErrorView, HandlerError, HandlerErrorView};
use crate::error::Reason;
use crate::laws::{
    agree, lemma_agreeing_decode_alike, lemma_decoded_conforms, lemma_missing_field_named,
    missing_at,
};
use crate::payload::{Payload, PayloadView};
use crate::registry::{
    lemma_position_from, position, view_outcome, Registry, ToolEntry, ToolHandler, ToolInfo,
};
use crate::schema::SchemaView;
use crate::shaped::Shaped;
use crate::tools::{
    EchoInput, EchoInputView, EchoOneOf, EchoOneOfView, EchoOptional, EchoOptionalView,
    EchoOutput, EchoOutputView, OneOf, OneOfView,
};
use vstd::prelude::*;

verus! {

/// The code of the error with which a sample tool refuses an input that is no
/// typed value of its input schema.
pub const MALFORMED_INPUT: i32 = -32602;

/// What `echo` answers: the two messages with a space between them.
pub open spec fn echo_spec(input: EchoInputView) -> EchoOutputView {
    EchoOutputView { message: input.message + seq![' '] + input.nested_item.message }
}

/// What `echo_one_of` answers: the message, after the name of its variant.
pub open spec fn echo_one_of_spec(input: EchoOneOfView) -> EchoOutputView {
    match input.one_of {
        OneOfView::Hello(hello) => EchoOutputView { message: "Hello Message: "@ + hello.message },
        OneOfView::World(world) => EchoOutputView { message: "World Message: "@ + world.message },
    }
}

/// What `echo_optional` answers: the message, and after a space the optional
/// one where it is set.
pub open spec fn echo_optional_spec(input: EchoOptionalView) -> EchoOutputView {
    match input.optional_message {
        Some(optional) => EchoOutputView { message: input.message + seq![' '] + optional },
        None => EchoOutputView { message: input.message },
    }
}

/// The error with which a sample tool refuses an input that is no typed value
/// of its input schema.
pub open spec fn malformed_input() -> HandlerErrorView {
    HandlerErrorView {
        code: MALFORMED_INPUT as int,
        message: "input does not have the declared shape"@,
    }
}

/// The handlers of the sample tools.
#[derive(Clone, Copy, Debug, PartialEq, Eq, Structural)]
pub enum EchoTool {
    Echo,
    EchoOneOf,
    EchoOptional,
}

impl EchoTool {
    /// The name under which the tool is registered.
    pub open spec fn name(self) -> Seq<char> {
        match self {
            EchoTool::Echo => "echo"@,
            EchoTool::EchoOneOf => "echo_one_of"@,
            EchoTool::EchoOptional => "echo_optional"@,
        }
    }

    /// What the tool is said to do.
    pub open spec fn description(self) -> Seq<char> {
        match self {
            EchoTool::Echo => "Takes the input and combines it into a single output message"@,
            EchoTool::EchoOneOf => "Echoes a one-of value"@,
            EchoTool::EchoOptional => "Echoes an optional value"@,
        }
    }

    /// The shape of the tool's input.
    pub open spec fn input_schema(self) -> SchemaView {
        match self {
            EchoTool::Echo => EchoInput::schema(),
            EchoTool::EchoOneOf => EchoOneOf::schema(),
            EchoTool::EchoOptional => EchoOptional::schema(),
        }
    }

    /// What the tool returns on a decoded input.
    pub open spec fn outcome(self, input: PayloadView) -> Result<PayloadView, HandlerErrorView> {
        match self {
            EchoTool::Echo => {
                match EchoInput::untyped(input) {
                    Some(params) => Ok(EchoOutput::typed(echo_spec(params))),
                    None => Err(malformed_input()),
                }
            },
            EchoTool::EchoOneOf => {
                match EchoOneOf::untyped(input) {
                    Some(params) => Ok(EchoOutput::typed(echo_one_of_spec(params))),
                    None => Err(malformed_input()),
                }
            },
            EchoTool::EchoOptional => {
                match EchoOptional::untyped(input) {
                    Some(params) => Ok(EchoOutput::typed(echo_optional_spec(params))),
                    None => Err(malformed_input()),
                }
            },
        }
    }
}

fn refuse_malformed() -> (e: HandlerError)
    ensures
        e@ == malformed_input(),
{
    HandlerError {
        code: MALFORMED_INPUT,
        message: "input does not have the declared shape".to_owned(),
    }
}

fn run_echo(params: EchoInput) -> (output: EchoOutput)
    ensures
        output@ == echo_spec(params@),
{
    let mut message = params.message.clone();
    proof {
        reveal_strlit(" ");
        assert(" "@ =~= seq![' ']);
    }
    message.append(" ");
    message.append(params.nested_item.message.as_str());
    EchoOutput { message }
}

fn run_echo_one_of(params: EchoOneOf) -> (output: EchoOutput)
    ensures
        output@ == echo_one_of_spec(params@),
{
    let message = match params.one_of {
        OneOf::Hello(hello) => {
            let mut message = "Hello Message: ".to_owned();
            message.append(hello.message.as_str());
            message
        },
        OneOf::World(world) => {
            let mut message = "World Message: ".to_owned();
            message.append(world.message.as_str());
            message
        },
    };
    EchoOutput { message }
}

fn run_echo_optional(params: EchoOptional) -> (output: EchoOutput)
    ensures
        output@ == echo_optional_spec(params@),
{
    let mut message = params.message.clone();
    match params.optional_message {
        Some(optional) => {
            proof {
                reveal_strlit(" ");
                assert(" "@ =~= seq![' ']);
            }
            message.append(" ");
            message.append(optional.as_str());
        },
        None => {},
    }
    EchoOutput { message }
}

impl ToolHandler for EchoTool {
    type Context = ();

    /// A sample tool changes nothing, and what it returns is decided by its
    /// input.
    open spec fn may_return(
        &self,
        before: (),
        input: PayloadView,
        after: (),
        outcome: Result<PayloadView, HandlerErrorView>,
    ) -> bool {
        outcome == self.outcome(input)
    }

    fn call(&self, context: &mut (), input: &Payload) -> (outcome: Result<Payload, HandlerError>) {
        match self {
            EchoTool::Echo => {
                match EchoInput::from_typed(input) {
                    Some(params) => Ok(run_echo(params).to_typed()),
                    None => Err(refuse_malformed()),
                }
            },
            EchoTool::EchoOneOf => {
                match EchoOneOf::from_typed(input) {
                    Some(params) => Ok(run_echo_one_of(params).to_typed()),
                    None => Err(refuse_malformed()),
                }
            },
            EchoTool::EchoOptional => {
                match EchoOptional::from_typed(input) {
                    Some(params) => Ok(run_echo_optional(params).to_typed()),
                    None => Err(refuse_malformed()),
                }
            },
        }
    }
}

/// Whether `entry` is the registration of the sample tool `tool`.
pub open spec fn is_sample_entry(entry: ToolEntry<EchoTool>, tool: EchoTool) -> bool {
    &&& entry.name@ == tool.name()
    &&& entry.description@ == tool.description()
    &&& entry.input_schema@ == tool.input_schema()
    &&& entry.output_schema@ == EchoOutput::schema()
    &&& entry.handler == tool
}

/// Whether `entries` are the three sample tools, in their order.
pub open spec fn is_sample_registry(entries: Seq<ToolEntry<EchoTool>>) -> bool {
    &&& entries.len() == 3
    &&& is_sample_entry(entries[0], EchoTool::Echo)
    &&& is_sample_entry(entries[1], EchoTool::EchoOneOf)
    &&& is_sample_entry(entries[2], EchoTool::EchoOptional)
}

/// The sample tool that is registered under `name`, if one is.
pub open spec fn tool_named(name: Seq<char>) -> Option<EchoTool> {
    if name == "echo"@ {
        Some(EchoTool::Echo)
    } else if name == "echo_one_of"@ {
        Some(EchoTool::EchoOneOf)
    } else if name == "echo_optional"@ {
        Some(EchoTool::EchoOptional)
    } else {
        None
    }
}

/// How a call of the sample service ends.
pub open spec fn call_spec(name: Seq<char>, payload: PayloadView) -> InvocationResultView {
    match tool_named(name) {
        None => InvocationResultView::Failure(DispatchErrorView::UnknownTool { name }),
        Some(tool) => {
            match decode_spec(tool.input_schema(), payload) {
                Err(e) => InvocationResultView::Failure(e),
                Ok(input) => finish_spec(EchoOutput::schema(), tool.outcome(input)),
            }
        },
    }
}

/// What the sample service answers when it is asked who it is.
pub open spec fn info_spec() -> ServerInfoView {
    ServerInfoView {
        instructions: Some("A tool to echo messages"@),
        capabilities: tools_with_list_changed(),
    }
}

/// The names of the sample tools differ from one another.
pub proof fn lemma_tool_names_differ()
    ensures
        "echo"@ != "echo_one_of"@,
        "echo"@ != "echo_optional"@,
        "echo_one_of"@ != "echo_optional"@,
{
    reveal_strlit("echo");
    reveal_strlit("echo_one_of");
    reveal_strlit("echo_optional");
    assert("echo"@.len() != "echo_one_of"@.len());
    assert("echo"@.len() != "echo_optional"@.len());
    assert("echo_one_of"@.len() != "echo_optional"@.len());
}

/// In the sample registry a tool stands where its name says.
pub proof fn lemma_sample_position(entries: Seq<ToolEntry<EchoTool>>, name: Seq<char>)
    requires
        is_sample_registry(entries),
    ensures
        match tool_named(name) {
            Some(tool) => position(entries, name) is Some && is_sample_entry(
                entries[position(entries, name)->0],
                tool,
            ),
            None => position(entries, name) is None,
        },
{
    lemma_tool_names_differ();
    lemma_position_from(entries, name, 0);
    match position(entries, name) {
        Some(k) => {
            assert(k == 0 || k == 1 || k == 2);
            if k > 0 {
                assert(entries[0].name@ != name);
            }
            if k > 1 {
                assert(entries[1].name@ != name);
            }
        },
        None => {
            assert(entries[0].name@ != name);
            assert(entries[1].name@ != name);
            assert(entries[2].name@ != name);
        },
    }
}

/// What a session knows of its peer.
pub struct Session<P> {
    /// What the peer said of itself when the session was initialized; `None`
    /// before that.
    pub peer: Option<P>,
}

impl<P> Session<P> {
    /// A session that is not initialized yet.
    pub fn new() -> (session: Self)
        ensures
            session.peer is None,
    {
        Session { peer: None }
    }
}

/// The sample service.
pub struct McpService {
    tool_router: Registry<EchoTool>,
}

impl McpService {
    #[verifier::type_invariant]
    spec fn holds_the_sample_tools(&self) -> bool {
        is_sample_registry(self.tool_router@)
    }

    /// The registered tools, in the order of their registration.
    pub closed spec fn tools(&self) -> Seq<ToolEntry<EchoTool>> {
        self.tool_router@
    }

    /// The service with its three tools registered: `echo`, `echo_one_of` and
    /// `echo_optional`, in this order.
    pub fn new() -> (service: Self)
        ensures
            is_sample_registry(service.tools()),
    {
        let mut tool_router: Registry<EchoTool> = Registry::new();
        proof {
            lemma_tool_names_differ();
        }
        let first = tool_router.register(
            "echo".to_owned(),
            "Takes the input and combines it into a single output message".to_owned(),
            EchoInput::describe(),
            EchoOutput::describe(),
            EchoTool::Echo,
        );
        assert(first is Ok);
        proof {
            lemma_position_from(tool_router@, "echo_one_of"@, 0);
        }
        let second = tool_router.register(
            "echo_one_of".to_owned(),
            "Echoes a one-of value".to_owned(),
            EchoOneOf::describe(),
            EchoOutput::describe(),
            EchoTool::EchoOneOf,
        );
        assert(second is Ok);
        proof {
            lemma_position_from(tool_router@, "echo_optional"@, 0);
        }
        let third = tool_router.register(
            "echo_optional".to_owned(),
            "Echoes an optional value".to_owned(),
            EchoOptional::describe(),
            EchoOutput::describe(),
            EchoTool::EchoOptional,
        );
        assert(third is Ok);
        McpService { tool_router }
    }

    /// Takes the input and combines it into a single output message.
    pub fn echo(&self, params: EchoInput) -> (output: Result<EchoOutput, HandlerError>)
        ensures
            output matches Ok(echoed) && echoed@ == echo_spec(params@),
    {
        Ok(run_echo(params))
    }

    /// Echoes a one-of value.
    pub fn echo_one_of(&self, params: EchoOneOf) -> (output: Result<EchoOutput, HandlerError>)
        ensures
            output matches Ok(echoed) && echoed@ == echo_one_of_spec(params@),
    {
        Ok(run_echo_one_of(params))
    }

    /// Echoes an optional value.
    pub fn echo_optional(&self, params: EchoOptional) -> (output: Result<EchoOutput, HandlerError>)
        ensures
            output matches Ok(echoed) && echoed@ == echo_optional_spec(params@),
    {
        Ok(run_echo_optional(params))
    }

    /// Who the service is: what it is for, and that it offers tools.
    pub fn get_info(&self) -> (info: ServerInfo)
        ensures
            info@ == info_spec(),
    {
        ServerInfo {
            instructions: Some("A tool to echo messages".to_owned()),
            capabilities: build_tool_capabilities(),
        }
    }

    /// Opens a session. The first call makes the peer known to the session; a
    /// later one changes nothing. Either way the service says who it is.
    pub fn initialize<P>(&self, session: &mut Session<P>, peer: P) -> (info: ServerInfo)
        ensures
            info@ == info_spec(),
            final(session).peer == match old(session).peer {
                Some(known) => Some(known),
                None => Some(peer),
            },
    {
        if session.peer.is_none() {
            session.peer = Some(peer);
        }
        self.get_info()
    }

    /// What the service tells of its tools, in the order of their
    /// registration.
    pub fn list_tools(&self) -> (tools: Vec<ToolInfo>)
        ensures
            tools@.len() == 3,
            forall|i: int| 0 <= i < 3 ==> is_sample_info((#[trigger] tools@[i])@, sample_tool(i)),
    {
        proof {
            use_type_invariant(self);
        }
        self.tool_router.list()
    }

    /// Handles one call.
    pub fn handle_call(&self, name: &str, payload: &Payload) -> (result: InvocationResult)
        ensures
            result@ == call_spec(name@, payload@),
    {
        proof {
            use_type_invariant(self);
            lemma_sample_position(self.tool_router@, name@);
        }
        let mut context = ();
        self.tool_router.dispatch(&mut context, name, payload)
    }
}

/// The sample tool at place `i` of the registration order.
pub open spec fn sample_tool(i: int) -> EchoTool {
    if i == 0 {
        EchoTool::Echo
    } else if i == 1 {
        EchoTool::EchoOneOf
    } else {
        EchoTool::EchoOptional
    }
}

/// Whether `info` is what the registry tells of the sample tool `tool`.
pub open spec fn is_sample_info(info: crate::registry::ToolInfoView, tool: EchoTool) -> bool {
    &&& info.name == tool.name()
    &&& info.description == tool.description()
    &&& info.input_schema == tool.input_schema()
    &&& info.output_schema == EchoOutput::schema()
}

/// A call whose payload decodes does not fail: the sample tools accept every
/// typed value of their input schema.
pub proof fn lemma_decoded_call_succeeds(name: Seq<char>, payload: PayloadView)
    requires
        tool_named(name) matches Some(tool) && decode_spec(tool.input_schema(), payload) is Ok,
    ensures
        call_spec(name, payload) is Success,
{
    let tool = tool_named(name)->0;
    let input = decode_spec(tool.input_schema(), payload)->Ok_0;
    lemma_decoded_conforms(tool.input_schema(), payload);
    match tool {
        EchoTool::Echo => {
            EchoInput::lemma_untyped(input);
        },
        EchoTool::EchoOneOf => {
            EchoOneOf::lemma_untyped(input);
        },
        EchoTool::EchoOptional => {
            EchoOptional::lemma_untyped(input);
        },
    }
}

/// The sample service ignores what a tool's input schema does not declare:
/// two payloads that agree on what it declares end alike.
pub proof fn lemma_call_ignores_undeclared(name: Seq<char>, a: PayloadView, b: PayloadView)
    requires
        tool_named(name) matches Some(tool) && agree(tool.input_schema(), a, b),
    ensures
        call_spec(name, a) == call_spec(name, b),
{
    let tool = tool_named(name)->0;
    lemma_agreeing_decode_alike(tool.input_schema(), a, b);
}

/// The sample service refuses a payload that lacks a required field of the
/// tool's input, and the error names the path of that field.
pub proof fn lemma_call_names_missing_field(
    name: Seq<char>,
    payload: PayloadView,
    path: Seq<Seq<char>>,
)
    requires
        tool_named(name) matches Some(tool) && missing_at(tool.input_schema(), payload, path),
    ensures
        call_spec(name, payload) == InvocationResultView::Failure(
            DispatchErrorView::InvalidParameters { path, reason: Reason::MissingField },
        ),
{
    let tool = tool_named(name)->0;
    lemma_missing_field_named(tool.input_schema(), payload, path);
}

} // verus!
