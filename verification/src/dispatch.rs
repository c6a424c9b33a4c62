//! Resolving accumulated tool calls and feeding their results back.

use crate::accumulator::{duplicate_calls, AccumulatedToolCall, CallModel};
use crate::request::{MessageModel, ModelRequest, RequestMessage, RequestModel};
use crate::text::{first_index, lemma_first_index_is, lemma_views_take_next, views};
use crate::tools::{Tool, ToolError, ToolRegistry};
use vstd::prelude::*;
use vstd::utf8::encode_utf8;

verus! {

/// `serde_json::Value`: a JSON value. It is carried through as it is; only
/// its text is ever looked at.
#[verifier::external_type_specification]
#[verifier::external_body]
pub struct ExJsonValue(serde_json::Value);

/// The compact JSON text of a value, as `serde_json` prints it.
pub uninterp spec fn json_text(value: serde_json::Value) -> Seq<char>;

/// `serde_json::Value::to_string`. Trusted: the result is the value's
/// compact JSON text, and printing a value never fails.
#[verifier::external_body]
fn render_json(value: &serde_json::Value) -> (text: String)
    ensures
        text@ == json_text(*value),
{
    value.to_string()
}

/// What one tool invocation came to.
#[derive(Debug, PartialEq)]
pub enum ToolInvocationResult {
    /// The tool answered with a JSON value.
    Payload { id: String, payload: serde_json::Value },
    /// The tool failed.
    Error { id: String, error: String },
}

/// The mathematical value of a `ToolInvocationResult`; a payload stands as
/// its JSON text.
pub enum ResultModel {
    Payload { id: Seq<char>, text: Seq<char> },
    Error { id: Seq<char>, error: Seq<char> },
}

impl ResultModel {
    /// The id of the call that the result answers.
    pub open spec fn id(self) -> Seq<char> {
        match self {
            ResultModel::Payload { id, .. } => id,
            ResultModel::Error { id, .. } => id,
        }
    }
}

impl View for ToolInvocationResult {
    type V = ResultModel;

    open spec fn view(&self) -> ResultModel {
        match *self {
            ToolInvocationResult::Payload { id, payload } => ResultModel::Payload {
                id: id@,
                text: json_text(payload),
            },
            ToolInvocationResult::Error { id, error } => ResultModel::Error { id: id@, error: error@ },
        }
    }
}

impl ToolInvocationResult {
    /// The id of the call that the result answers.
    pub fn id(&self) -> (id: &str)
        ensures
            id@ == self@.id(),
    {
        match self {
            ToolInvocationResult::Payload { id, .. } => id.as_str(),
            ToolInvocationResult::Error { id, .. } => id.as_str(),
        }
    }
}

/// A tool invocation failed.
#[derive(Clone, Debug, PartialEq, Eq)]
pub struct ToolInvocationError {
    /// The id of the call.
    pub id: String,
    /// What the tool reported.
    pub error: String,
}

/// The condition of naming a tool that the given names do not include.
pub open spec fn is_unknown(names: Set<Seq<char>>) -> spec_fn(CallModel) -> bool {
    |call: CallModel| !names.contains(call.name)
}

/// The position of the first call that names an unregistered tool, or the
/// number of calls if every tool is registered.
pub open spec fn first_unknown(calls: Seq<CallModel>, names: Set<Seq<char>>) -> int {
    first_index(calls, is_unknown(names))
}

/// The condition of being a failure.
pub open spec fn is_failure() -> spec_fn(ResultModel) -> bool {
    |result: ResultModel| result is Error
}

/// The position of the first failed invocation, or the number of results if
/// none failed.
pub open spec fn first_failure(results: Seq<ResultModel>) -> int {
    first_index(results, is_failure())
}

/// Whether some results answer some calls one by one: as many results as
/// calls, and each result under the id of the call at its place.
pub open spec fn answers(results: Seq<ResultModel>, calls: Seq<CallModel>) -> bool {
    &&& results.len() == calls.len()
    &&& forall|i: int| 0 <= i < results.len() ==> (#[trigger] results[i]).id() == calls[i].id
}

/// The message that hands a successful result back to the model: the
/// payload's JSON text under the id of the call.
pub open spec fn result_message(result: ResultModel) -> MessageModel {
    MessageModel::Tool {
        content: match result {
            ResultModel::Payload { text, .. } => text,
            ResultModel::Error { error, .. } => error,
        },
        tool_call_id: result.id(),
    }
}

/// The messages that hand some results back to the model, in order.
pub open spec fn result_messages(results: Seq<ResultModel>) -> Seq<MessageModel> {
    Seq::new(results.len(), |i: int| result_message(results[i]))
}

/// The messages of a tool round: one assistant message that carries all the
/// calls, then one tool message for each result, in the order of the
/// results.
pub open spec fn tool_round(calls: Seq<CallModel>, results: Seq<ResultModel>) -> Seq<MessageModel> {
    seq![MessageModel::Assistant { content: None, tool_calls: Some(calls) }] + result_messages(results)
}

/// A request with the messages of a tool round added at its end.
pub open spec fn with_tool_round(
    request: RequestModel,
    calls: Seq<CallModel>,
    results: Seq<ResultModel>,
) -> RequestModel {
    RequestModel { messages: request.messages + tool_round(calls, results), ..request }
}

/// Checks that every call names a registered tool. Fails with the name of
/// the first call, in order, that does not.
pub fn check_tools<T: Tool>(calls: &Vec<AccumulatedToolCall>, registry: &ToolRegistry<T>) -> (checked:
    Result<(), ToolError>)
    ensures
        match checked {
            Ok(_) => first_unknown(views(calls@), registry@.dom()) == calls@.len(),
            Err(error) => {
                let at = first_unknown(views(calls@), registry@.dom());
                0 <= at < calls@.len() && error.name@ == calls@[at]@.name
            },
        },
{
    let ghost models = views(calls@);
    let ghost unknown = is_unknown(registry@.dom());
    let mut i: usize = 0;
    while i < calls.len()
        invariant
            i <= calls.len(),
            models == views(calls@),
            unknown == is_unknown(registry@.dom()),
            forall|j: int| 0 <= j < i ==> !unknown(#[trigger] models[j]),
        decreases calls.len() - i,
    {
        if !registry.contains(calls[i].name.as_str()) {
            proof {
                assert(unknown(models[i as int]));
                lemma_first_index_is(models, unknown, i as int);
            }
            return Err(ToolError { name: calls[i].name.clone() });
        }
        assert(!unknown(models[i as int]));
        i += 1;
    }
    proof {
        lemma_first_index_is(models, unknown, i as int);
    }
    Ok(())
}

/// Adds a tool round to a request: the assistant message that carries the
/// calls, then one tool message for each result, in the order of the
/// results. Fails with the first failed invocation, in order, if there is
/// one; the request is then dropped.
pub fn tool_response(req: ModelRequest, tools: &Vec<AccumulatedToolCall>, results: &Vec<ToolInvocationResult>) -> (
    response: Result<ModelRequest, ToolInvocationError>)
    ensures
        match response {
            Ok(request) => {
                &&& first_failure(views(results@)) == results@.len()
                &&& request@ == with_tool_round(req@, views(tools@), views(results@))
            },
            Err(failure) => {
                let at = first_failure(views(results@));
                &&& 0 <= at < results@.len()
                &&& views(results@)[at] == (ResultModel::Error { id: failure.id@, error: failure.error@ })
            },
        },
{
    let ghost models = views(results@);
    let mut messages: Vec<RequestMessage> = Vec::new();
    let mut i: usize = 0;
    while i < results.len()
        invariant
            i <= results.len(),
            models == views(results@),
            forall|j: int| 0 <= j < i ==> !is_failure()(#[trigger] models[j]),
            views(messages@) == result_messages(views(results@.take(i as int))),
        decreases results.len() - i,
    {
        proof {
            lemma_views_take_next(results@, i as int);
        }
        let ghost held = messages@;
        match &results[i] {
            ToolInvocationResult::Payload { id, payload } => {
                let content = render_json(payload);
                messages.push(RequestMessage::Tool { content, tool_call_id: id.clone() });
            },
            ToolInvocationResult::Error { id, error } => {
                proof {
                    assert(is_failure()(models[i as int]));
                    lemma_first_index_is(models, is_failure(), i as int);
                }
                return Err(ToolInvocationError { id: id.clone(), error: error.clone() });
            },
        }
        assert(!is_failure()(models[i as int]));
        assert(views(messages@) =~= views(held).push(result_message(results@[i as int]@)));
        assert(views(messages@) =~= result_messages(views(results@.take(i + 1))));
        i += 1;
    }
    proof {
        lemma_first_index_is(models, is_failure(), i as int);
        assert(results@.take(i as int) =~= results@);
    }
    let mut req = req;
    let ghost before = req@;
    let ghost held = req.messages@;
    req.messages.push(RequestMessage::Assistant { content: None, tool_calls: Some(duplicate_calls(tools)) });
    assert(views(req.messages@) =~= views(held).push(
        MessageModel::Assistant { content: None, tool_calls: Some(views(tools@)) },
    ));
    let ghost with_calls = req.messages@;
    let ghost added = messages@;
    req.messages.append(&mut messages);
    assert(req.messages@ == with_calls + added);
    assert(views(req.messages@) =~= before.messages + tool_round(views(tools@), views(results@)));
    Ok(req)
}

/// How much of a tool's answer is shown in a log line: its first 50 bytes,
/// or all of it if it is shorter.
pub fn get_truncation_index(content: &String) -> (index: usize)
    ensures
        index == if (encode_utf8(content@).len() as usize) < 50 {
            encode_utf8(content@).len() as usize
        } else {
            50
        },
{
    let length = content.as_str().len();
    if length < 50 {
        length
    } else {
        50
    }
}

} // verus!
