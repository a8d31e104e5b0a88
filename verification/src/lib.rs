//! A tool router with schema-validated dispatch.
//!
//! Tools are named operations with a declared input and output shape. A
//! [`Registry`] holds them. A call names a tool and brings a payload: the
//! payload is decoded against the tool's input schema, the tool's handler runs
//! on the decoded value, and what it returns is encoded along the output
//! schema. Every call ends in an [`InvocationResult`]: a payload, or an error
//! that says what went wrong and where.
//!
//! [`McpService`] is a sample service with three echo tools.

pub mod advertise;
pub mod capabilities;
pub mod decode;
pub mod dispatch;
pub mod encode;
pub mod error;
pub mod laws;
pub mod payload;
pub mod registry;
pub mod schema;
pub mod service;
pub mod shaped;
mod text;
pub mod tools;

pub use capabilities::{Capabilities, ServerInfo, ToolsCapability};
pub use decode::decode;
pub use dispatch::{finish, InvocationResult};
pub use encode::encode;
pub use error::{
    join_path, DispatchError, ErrorKind, HandlerError, Reason, StructuredError,
};
pub use payload::{find, Member, Payload};
pub use registry::{Registry, RegistryError, ToolEntry, ToolHandler, ToolInfo};
pub use schema::{Field, ScalarKind, SchemaDescriptor, Variant};
pub use service::{EchoTool, McpService, Session, MALFORMED_INPUT};
pub use shaped::{decode_as, encode_from, Shaped};
pub use tools::{
    EchoInput, EchoOneOf, EchoOptional, EchoOutput, Hello, NestedItem, OneOf, World,
};
