//! Building the request that is sent to the model.

use crate::accumulator::{AccumulatedToolCall, CallModel};
use crate::text::{lemma_views_take_next, views};
use crate::tools::Tool;
use vstd::prelude::*;

verus! {

/// Who wrote a stored message.
#[derive(Clone, Copy, Debug, PartialEq, Eq, Structural)]
pub enum MessageType {
    SystemMessage,
    AIMessage,
    HumanMessage,
    ToolMessage,
}

/// A message of the stored conversation.
#[derive(Clone, Debug, PartialEq, Eq)]
pub struct Message {
    pub content: String,
    pub message_type: MessageType,
}

/// The mathematical value of a `Message`.
pub struct StoredModel {
    pub content: Seq<char>,
    pub message_type: MessageType,
}

impl View for Message {
    type V = StoredModel;

    open spec fn view(&self) -> StoredModel {
        StoredModel { content: self.content@, message_type: self.message_type }
    }
}

/// A message as the model receives it.
#[allow(inconsistent_fields)]
#[derive(Clone, Debug, PartialEq, Eq)]
pub enum RequestMessage {
    System { content: String },
    User { content: String },
    Assistant { content: Option<String>, tool_calls: Option<Vec<AccumulatedToolCall>> },
    Tool { content: String, tool_call_id: String },
}

/// The mathematical value of a `RequestMessage`.
#[allow(inconsistent_fields)]
pub enum MessageModel {
    System { content: Seq<char> },
    User { content: Seq<char> },
    Assistant { content: Option<Seq<char>>, tool_calls: Option<Seq<CallModel>> },
    Tool { content: Seq<char>, tool_call_id: Seq<char> },
}

impl View for RequestMessage {
    type V = MessageModel;

    open spec fn view(&self) -> MessageModel {
        match *self {
            RequestMessage::System { content } => MessageModel::System { content: content@ },
            RequestMessage::User { content } => MessageModel::User { content: content@ },
            RequestMessage::Assistant { content, tool_calls } => MessageModel::Assistant {
                content: match content {
                    Some(text) => Some(text@),
                    None => None,
                },
                tool_calls: match tool_calls {
                    Some(calls) => Some(views(calls@)),
                    None => None,
                },
            },
            RequestMessage::Tool { content, tool_call_id } => MessageModel::Tool {
                content: content@,
                tool_call_id: tool_call_id@,
            },
        }
    }
}

/// How a tool is described to the model.
#[derive(Clone, Debug, PartialEq, Eq)]
pub struct ToolSchema {
    pub name: String,
    pub description: String,
    /// The JSON schema of the arguments, as text.
    pub parameters: String,
}

/// The mathematical value of a `ToolSchema`.
pub struct SchemaModel {
    pub name: Seq<char>,
    pub description: Seq<char>,
    pub parameters: Seq<char>,
}

impl View for ToolSchema {
    type V = SchemaModel;

    open spec fn view(&self) -> SchemaModel {
        SchemaModel { name: self.name@, description: self.description@, parameters: self.parameters@ }
    }
}

/// Who decides whether a tool is called.
#[derive(Clone, Copy, Debug, PartialEq, Eq, Structural)]
pub enum ToolChoice {
    /// The model decides.
    Auto,
}

/// A request for one streamed completion. The three sampling values are held
/// as the bit patterns of single-precision numbers.
#[derive(Clone, Debug, PartialEq, Eq)]
pub struct ModelRequest {
    pub model: String,
    pub stream: bool,
    pub temperature: Option<u32>,
    pub presence_penalty: Option<u32>,
    pub top_p: Option<u32>,
    pub tool_choice: Option<ToolChoice>,
    pub tools: Option<Vec<ToolSchema>>,
    pub messages: Vec<RequestMessage>,
}

/// The mathematical value of a `ModelRequest`.
pub struct RequestModel {
    pub model: Seq<char>,
    pub stream: bool,
    pub temperature: Option<u32>,
    pub presence_penalty: Option<u32>,
    pub top_p: Option<u32>,
    pub tool_choice: Option<ToolChoice>,
    pub tools: Option<Seq<SchemaModel>>,
    pub messages: Seq<MessageModel>,
}

impl View for ModelRequest {
    type V = RequestModel;

    open spec fn view(&self) -> RequestModel {
        RequestModel {
            model: self.model@,
            stream: self.stream,
            temperature: self.temperature,
            presence_penalty: self.presence_penalty,
            top_p: self.top_p,
            tool_choice: self.tool_choice,
            tools: match self.tools {
                Some(tools) => Some(views(tools@)),
                None => None,
            },
            messages: views(self.messages@),
        }
    }
}

/// An assistant: the model it speaks through, its standing instructions, its
/// sampling values (bit patterns of single-precision numbers) and its tools.
pub struct Bot<T: Tool> {
    pub model_name: String,
    pub system_prompt: String,
    /// The address of the model's API: the endpoint followed by `/v1`.
    pub api_base: String,
    pub tools: Option<Vec<T>>,
    pub temperature: Option<u32>,
    pub presence_penalty: Option<u32>,
    pub top_p: Option<u32>,
}

impl<T: Tool> Bot<T> {
    /// An assistant with the given settings, whose model is served at
    /// `api_endpoint`.
    pub fn new(
        model_name: String,
        system_prompt: &str,
        api_endpoint: &str,
        temperature: Option<u32>,
        presence_penalty: Option<u32>,
        top_p: Option<u32>,
        tools: Option<Vec<T>>,
    ) -> (bot: Self)
        ensures
            bot.model_name == model_name,
            bot.system_prompt@ == system_prompt@,
            bot.api_base@ == api_endpoint@ + "/v1"@,
            bot.temperature == temperature,
            bot.presence_penalty == presence_penalty,
            bot.top_p == top_p,
            bot.tools == tools,
    {
        let mut api_base = api_endpoint.to_owned();
        api_base.append("/v1");
        Bot {
            model_name,
            system_prompt: system_prompt.to_owned(),
            api_base,
            tools,
            temperature,
            presence_penalty,
            top_p,
        }
    }
}

/// How a tool is described to the model: its name, description and schema.
pub open spec fn schema_of<T: Tool>(tool: T) -> SchemaModel {
    SchemaModel {
        name: tool.spec_name(),
        description: tool.spec_description(),
        parameters: tool.spec_parameters(),
    }
}

/// The descriptions of some tools, in order.
pub open spec fn manifest<T: Tool>(tools: Option<Vec<T>>) -> Option<Seq<SchemaModel>> {
    match tools {
        Some(tools) => Some(Seq::new(tools@.len(), |i: int| schema_of(tools@[i]))),
        None => None,
    }
}

/// The request that opens a conversation: the assistant's settings, the
/// descriptions of the given tools, and the system prompt as the only
/// message.
pub open spec fn opening_request<T: Tool>(bot: Bot<T>, tools: Option<Vec<T>>) -> RequestModel {
    RequestModel {
        model: bot.model_name@,
        stream: true,
        temperature: bot.temperature,
        presence_penalty: bot.presence_penalty,
        top_p: bot.top_p,
        tool_choice: Some(ToolChoice::Auto),
        tools: manifest(tools),
        messages: seq![MessageModel::System { content: bot.system_prompt@ }],
    }
}

/// A stored message as the model receives it: the role carries over one to
/// one; a stored tool message names no call.
pub open spec fn replayed(stored: StoredModel) -> MessageModel {
    match stored.message_type {
        MessageType::SystemMessage => MessageModel::System { content: stored.content },
        MessageType::AIMessage => MessageModel::Assistant { content: Some(stored.content), tool_calls: None },
        MessageType::HumanMessage => MessageModel::User { content: stored.content },
        MessageType::ToolMessage => MessageModel::Tool {
            content: stored.content,
            tool_call_id: Seq::empty(),
        },
    }
}

/// Some stored messages as the model receives them, in the same order.
pub open spec fn replayed_all(stored: Seq<StoredModel>) -> Seq<MessageModel> {
    Seq::new(stored.len(), |i: int| replayed(stored[i]))
}

/// A request with the stored conversation and the new user message added
/// after the messages it already has.
pub open spec fn with_conversation(
    request: RequestModel,
    previous: Seq<StoredModel>,
    new_message: Seq<char>,
) -> RequestModel {
    RequestModel {
        messages: request.messages + replayed_all(previous) + seq![
            MessageModel::User { content: new_message },
        ],
        ..request
    }
}

/// The whole request of a turn: system prompt, stored conversation, new user
/// message, with the descriptions of the given tools.
pub open spec fn turn_request<T: Tool>(
    bot: Bot<T>,
    tools: Option<Vec<T>>,
    previous: Seq<StoredModel>,
    new_message: Seq<char>,
) -> RequestModel {
    with_conversation(opening_request(bot, tools), previous, new_message)
}

/// How a tool is described to the model.
pub fn tool_schema<T: Tool>(tool: &T) -> (schema: ToolSchema)
    ensures
        schema@ == schema_of(*tool),
{
    ToolSchema {
        name: tool.name().to_owned(),
        description: tool.description().to_owned(),
        parameters: tool.parameters(),
    }
}

/// The request that opens a conversation with the assistant `bot`: streamed,
/// with the assistant's model and sampling values, the model left to decide
/// on tools, one schema for each of `tools`, and the system prompt as the
/// only message.
pub fn get_req<T: Tool>(bot: &Bot<T>, tools: &Option<Vec<T>>) -> (request: ModelRequest)
    ensures
        request@ == opening_request(*bot, *tools),
{
    let schemas = match tools {
        Some(tools) => {
            let mut schemas: Vec<ToolSchema> = Vec::new();
            let mut i: usize = 0;
            while i < tools.len()
                invariant
                    i <= tools.len(),
                    schemas@.len() == i,
                    forall|j: int| 0 <= j < i ==> (#[trigger] schemas@[j])@ == schema_of(tools@[j]),
                decreases tools.len() - i,
            {
                schemas.push(tool_schema(&tools[i]));
                i += 1;
            }
            assert(views(schemas@) =~= Seq::new(tools@.len(), |i: int| schema_of(tools@[i])));
            Some(schemas)
        },
        None => None,
    };
    let mut messages: Vec<RequestMessage> = Vec::new();
    messages.push(RequestMessage::System { content: bot.system_prompt.clone() });
    assert(views(messages@) =~= seq![MessageModel::System { content: bot.system_prompt@ }]);
    ModelRequest {
        model: bot.model_name.clone(),
        stream: true,
        temperature: bot.temperature,
        presence_penalty: bot.presence_penalty,
        top_p: bot.top_p,
        tool_choice: Some(ToolChoice::Auto),
        tools: schemas,
        messages,
    }
}

/// A stored message as the model receives it.
pub fn replay(stored: &Message) -> (message: RequestMessage)
    ensures
        message@ == replayed(stored@),
{
    match stored.message_type {
        MessageType::SystemMessage => RequestMessage::System { content: stored.content.clone() },
        MessageType::AIMessage => RequestMessage::Assistant {
            content: Some(stored.content.clone()),
            tool_calls: None,
        },
        MessageType::HumanMessage => RequestMessage::User { content: stored.content.clone() },
        MessageType::ToolMessage => RequestMessage::Tool {
            content: stored.content.clone(),
            tool_call_id: String::new(),
        },
    }
}

/// Adds the stored conversation, in its order, and then the new user message
/// to the messages of a request. Nothing else of the request changes.
pub fn construct_messages(req: ModelRequest, previous_messages: &Vec<Message>, new_message: &str) -> (request:
    ModelRequest)
    ensures
        request@ == with_conversation(req@, views(previous_messages@), new_message@),
{
    let mut req = req;
    let ghost before = req@;
    let mut i: usize = 0;
    while i < previous_messages.len()
        invariant
            i <= previous_messages.len(),
            req@ == (RequestModel {
                messages: before.messages + replayed_all(views(previous_messages@.take(i as int))),
                ..before
            }),
        decreases previous_messages.len() - i,
    {
        proof {
            lemma_views_take_next(previous_messages@, i as int);
        }
        let ghost held = req.messages@;
        req.messages.push(replay(&previous_messages[i]));
        assert(views(req.messages@) =~= views(held).push(replayed(previous_messages@[i as int]@)));
        assert(views(req.messages@) =~= before.messages + replayed_all(
            views(previous_messages@.take(i + 1)),
        ));
        i += 1;
    }
    assert(previous_messages@.take(i as int) =~= previous_messages@);
    let ghost held = req.messages@;
    req.messages.push(RequestMessage::User { content: new_message.to_owned() });
    assert(views(req.messages@) =~= views(held).push(MessageModel::User { content: new_message@ }));
    assert(views(req.messages@) =~= before.messages + replayed_all(views(previous_messages@)) + seq![
        MessageModel::User { content: new_message@ },
    ]);
    req
}

} // verus!
