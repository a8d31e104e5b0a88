//! What a server tells its peer about itself.

use vstd::prelude::*;

verus! {

/// What the server can do with tools.
#[derive(Clone, Copy, Debug, PartialEq, Eq)]
pub struct ToolsCapability {
    /// Whether the server tells its peer when the list of tools changes.
    pub list_changed: Option<bool>,
}

/// What the server can do. A capability that is `None` is not offered.
#[derive(Clone, Copy, Debug, PartialEq, Eq)]
pub struct Capabilities {
    pub tools: Option<ToolsCapability>,
}

/// What the server answers when it is asked who it is.
#[derive(Debug, PartialEq, Eq)]
pub struct ServerInfo {
    /// How to use the server, for a human reader.
    pub instructions: Option<String>,
    pub capabilities: Capabilities,
}

/// The mathematical value of a [`ServerInfo`].
pub struct ServerInfoView {
    pub instructions: Option<Seq<char>>,
    pub capabilities: Capabilities,
}

impl View for ServerInfo {
    type V = ServerInfoView;

    open spec fn view(&self) -> ServerInfoView {
        ServerInfoView {
            instructions: match self.instructions {
                Some(text) => Some(text@),
                None => None,
            },
            capabilities: self.capabilities,
        }
    }
}

/// The capabilities of a server that offers tools and says when their list
/// changes.
pub open spec fn tools_with_list_changed() -> Capabilities {
    Capabilities { tools: Some(ToolsCapability { list_changed: Some(true) }) }
}

/// rmcp's capability builder, `ServerCapabilities::builder()`, followed by
/// `enable_tools()`, `enable_tool_list_changed()` and `build()`. The builder
/// starts with every capability absent; `enable_tools` sets the tools
/// capability to its default, whose `list_changed` is absent;
/// `enable_tool_list_changed` sets that to `Some(true)`; `build` hands the
/// fields over as they are. Of the result this keeps the tools capability.
#[verifier::external_body]
pub(crate) fn build_tool_capabilities() -> (capabilities: Capabilities)
    ensures
        capabilities == tools_with_list_changed(),
{
    let built = rmcp::model::ServerCapabilities::builder()
        .enable_tools()
        .enable_tool_list_changed()
        .build();
    Capabilities {
        tools: match built.tools {
            Some(tools) => Some(ToolsCapability { list_changed: tools.list_changed }),
            None => None,
        },
    }
}

} // verus!
