//! The dispatcher: from a tool's name and a payload to a result or an error.

use crate::decode::{decode, decode_spec};
use crate::encode::{encode, encode_spec};
use crate::error::{DispatchError, DispatchErrorView, HandlerError, HandlerErrorView, Reason};
use crate::laws::{agree, lemma_agreeing_decode_alike, lemma_missing_field_named, missing_at};
use crate::payload::{Payload, PayloadView};
use crate::registry::{position, view_outcome, Registry, ToolEntry, ToolHandler};
use crate::schema::{SchemaDescriptor, SchemaView};
use vstd::prelude::*;

verus! {

/// How a call ended.
#[derive(Debug, PartialEq, Eq)]
pub enum InvocationResult {
    /// The tool ran; this is what it returned, encoded.
    Success(Payload),
    /// The call failed, before the tool ran or in it.
    Failure(DispatchError),
}

/// The mathematical value of an [`InvocationResult`].
pub enum InvocationResultView {
    Success(PayloadView),
    Failure(DispatchErrorView),
}

impl View for InvocationResult {
    type V = InvocationResultView;

    open spec fn view(&self) -> InvocationResultView {
        match self {
            InvocationResult::Success(payload) => InvocationResultView::Success(payload@),
            InvocationResult::Failure(e) => InvocationResultView::Failure(e@),
        }
    }
}

/// What happens before a handler runs: the tool is looked up and the payload
/// is decoded against its input schema. The result is the tool's place in the
/// registry with the decoded input, or the reason why no handler will run.
pub open spec fn resolve_spec<H>(entries: Seq<ToolEntry<H>>, name: Seq<char>, payload: PayloadView)
    -> Result<(int, PayloadView), DispatchErrorView> {
    match position(entries, name) {
        None => Err(DispatchErrorView::UnknownTool { name }),
        Some(i) => {
            match decode_spec(entries[i].input_schema@, payload) {
                Ok(input) => Ok((i, input)),
                Err(e) => Err(e),
            }
        },
    }
}

/// What happens after a handler has run: what it returned is encoded along
/// the output schema, and its failure is reported as it is.
pub open spec fn finish_spec(
    output_schema: SchemaView,
    outcome: Result<PayloadView, HandlerErrorView>,
) -> InvocationResultView {
    match outcome {
        Ok(value) => InvocationResultView::Success(encode_spec(output_schema, value)),
        Err(e) => InvocationResultView::Failure(DispatchErrorView::Handler(e)),
    }
}

/// Turns what a handler returned into the result of the call.
pub fn finish(output_schema: &SchemaDescriptor, outcome: Result<Payload, HandlerError>) -> (result:
    InvocationResult)
    ensures
        result@ == finish_spec(output_schema@, view_outcome(outcome)),
{
    match outcome {
        Ok(value) => InvocationResult::Success(encode(output_schema, &value)),
        Err(e) => InvocationResult::Failure(DispatchError::Handler(e)),
    }
}

impl<H: ToolHandler> Registry<H> {
    /// Looks the tool up and decodes the payload for it. No handler runs.
    pub fn resolve(&self, name: &str, payload: &Payload) -> (resolved: Result<
        (usize, Payload),
        DispatchError,
    >)
        ensures
            match resolved {
                Ok((i, input)) => i < self@.len() && resolve_spec(self@, name@, payload@) == Ok::<
                    (int, PayloadView),
                    DispatchErrorView,
                >((i as int, input@)),
                Err(e) => resolve_spec(self@, name@, payload@) == Err::<
                    (int, PayloadView),
                    DispatchErrorView,
                >(e@),
            },
    {
        match self.index_of(name) {
            None => Err(DispatchError::UnknownTool { name: name.to_owned() }),
            Some(i) => {
                match decode(&self.entry(i).input_schema, payload) {
                    Ok(input) => Ok((i, input)),
                    Err(e) => Err(e),
                }
            },
        }
    }

    /// Handles one call. A name that is not registered and a payload that does
    /// not decode end the call before any handler runs: the context is
    /// then as it was. Otherwise the tool's handler runs once, on the decoded
    /// input, and what it returns is encoded along the tool's output schema.
    pub fn dispatch(&self, context: &mut H::Context, name: &str, payload: &Payload) -> (result:
        InvocationResult)
        ensures
            match resolve_spec(self@, name@, payload@) {
                Err(e) => {
                    &&& result@ == InvocationResultView::Failure(e)
                    &&& *final(context) == *old(context)
                },
                Ok((i, input)) => exists|outcome: Result<PayloadView, HandlerErrorView>|
                    {
                        &&& #[trigger] self@[i].handler.may_return(
                            *old(context),
                            input,
                            *final(context),
                            outcome,
                        )
                        &&& result@ == finish_spec(self@[i].output_schema@, outcome)
                    },
            },
    {
        match self.resolve(name, payload) {
            Err(e) => InvocationResult::Failure(e),
            Ok((i, input)) => {
                let entry = self.entry(i);
                let outcome = entry.handler.call(context, &input);
                assert(entry.handler.may_return(
                    *old(context),
                    input@,
                    *context,
                    view_outcome(outcome),
                ));
                finish(&entry.output_schema, outcome)
            },
        }
    }
}

/// A name that is not registered is refused as an unknown tool, before any
/// handler could run.
pub proof fn lemma_unknown_tool_refused<H>(
    entries: Seq<ToolEntry<H>>,
    name: Seq<char>,
    payload: PayloadView,
)
    requires
        position(entries, name) is None,
    ensures
        resolve_spec(entries, name, payload) == Err::<(int, PayloadView), DispatchErrorView>(
            DispatchErrorView::UnknownTool { name },
        ),
{
}

/// A payload that lacks a required field of the tool's input is refused
/// before any handler could run, and the error names the path of that field.
pub proof fn lemma_missing_field_refused<H>(
    entries: Seq<ToolEntry<H>>,
    name: Seq<char>,
    payload: PayloadView,
    path: Seq<Seq<char>>,
)
    requires
        position(entries, name) matches Some(i) && missing_at(
            entries[i].input_schema@,
            payload,
            path,
        ),
    ensures
        resolve_spec(entries, name, payload) == Err::<(int, PayloadView), DispatchErrorView>(
            DispatchErrorView::InvalidParameters { path, reason: Reason::MissingField },
        ),
{
    let i = position(entries, name)->0;
    lemma_missing_field_named(entries[i].input_schema@, payload, path);
}

/// Members that the tool's input schema does not declare are ignored: two
/// payloads that agree on what the schema declares are resolved alike, so a
/// handler sees the same input for both.
pub proof fn lemma_undeclared_members_ignored<H>(
    entries: Seq<ToolEntry<H>>,
    name: Seq<char>,
    a: PayloadView,
    b: PayloadView,
)
    requires
        position(entries, name) matches Some(i) && agree(entries[i].input_schema@, a, b),
    ensures
        resolve_spec(entries, name, a) == resolve_spec(entries, name, b),
{
    let i = position(entries, name)->0;
    lemma_agreeing_decode_alike(entries[i].input_schema@, a, b);
}

} // verus!
