//! A whole turn: from a new user message to the finished answer.
//!
//! The turn decides; its caller acts. The caller opens the model's stream,
//! reads it, sends tokens to the consumer and invokes tools as it is told,
//! and reports back what happened.

use crate::accumulator::{duplicate_calls, AccumulatedToolCall, CallModel};
use crate::delta::{DeltaModel, StreamDelta};
use crate::dispatch::{
    answers, check_tools, first_failure, first_unknown, tool_response, with_tool_round, ResultModel,
    ToolInvocationError, ToolInvocationResult,
};
use crate::request::{construct_messages, get_req, turn_request, Bot, Message, ModelRequest, RequestModel};
use crate::splitter::{
    closed_pass, fresh_pass, pass_step, ChatStreamResult, PassAction, PassActionModel, PassModel,
    ResultingModel, StreamEvent, StreamEventModel, StreamFault, StreamPass, TokenModel, WebSocketToken,
};
use crate::text::{str_eq, views};
use crate::tools::{lemma_registered_next, registered, Tool, ToolError, ToolRegistry};
use vstd::prelude::*;

verus! {

/// The answer of a finished turn.
#[derive(Clone, Debug, PartialEq, Eq)]
pub struct TurnOutcome {
    /// The answer; cut short if the consumer went away.
    pub text: String,
    /// Whether tools were called on the way.
    pub tool_assisted: bool,
}

/// The mathematical value of a `TurnOutcome`.
pub struct OutcomeModel {
    pub text: Seq<char>,
    pub tool_assisted: bool,
}

impl View for TurnOutcome {
    type V = OutcomeModel;

    open spec fn view(&self) -> OutcomeModel {
        OutcomeModel { text: self.text@, tool_assisted: self.tool_assisted }
    }
}

/// Why a turn failed.
#[derive(Clone, Debug, PartialEq, Eq)]
pub enum TurnError {
    /// The model finished for tool calls without having named any.
    ProtocolViolation,
    /// The model asked for tools again after the tool round.
    UnexpectedToolCalls,
    /// A call named a tool that is not registered.
    ToolNotFound(ToolError),
    /// A tool failed.
    ToolInvocation(ToolInvocationError),
    /// The model's stream could not be opened or broke off.
    ModelBackend(String),
    /// The turn was told of something it was not waiting for.
    UnexpectedEvent,
}

/// The mathematical value of a `TurnError`.
pub enum TurnErrorModel {
    ProtocolViolation,
    UnexpectedToolCalls,
    ToolNotFound { name: Seq<char> },
    ToolInvocation { id: Seq<char>, error: Seq<char> },
    ModelBackend { message: Seq<char> },
    UnexpectedEvent,
}

impl View for TurnError {
    type V = TurnErrorModel;

    open spec fn view(&self) -> TurnErrorModel {
        match *self {
            TurnError::ProtocolViolation => TurnErrorModel::ProtocolViolation,
            TurnError::UnexpectedToolCalls => TurnErrorModel::UnexpectedToolCalls,
            TurnError::ToolNotFound(error) => TurnErrorModel::ToolNotFound { name: error.name@ },
            TurnError::ToolInvocation(failure) => TurnErrorModel::ToolInvocation {
                id: failure.id@,
                error: failure.error@,
            },
            TurnError::ModelBackend(message) => TurnErrorModel::ModelBackend { message: message@ },
            TurnError::UnexpectedEvent => TurnErrorModel::UnexpectedEvent,
        }
    }
}

/// The words of an error.
pub open spec fn error_text(error: TurnErrorModel) -> Seq<char> {
    match error {
        TurnErrorModel::ProtocolViolation => "Finish reason is ToolCalls, but no tools to call!"@,
        TurnErrorModel::UnexpectedToolCalls => "Message required from tool call result"@,
        TurnErrorModel::ToolNotFound { name } => "Tool "@ + name + " not found"@,
        TurnErrorModel::ToolInvocation { error, .. } => error,
        TurnErrorModel::ModelBackend { message } => message,
        TurnErrorModel::UnexpectedEvent => "Event out of order"@,
    }
}

impl TurnError {
    /// The error in words.
    pub fn to_string(&self) -> (text: String)
        ensures
            text@ == error_text(self@),
    {
        match self {
            TurnError::ProtocolViolation => "Finish reason is ToolCalls, but no tools to call!".to_owned(),
            TurnError::UnexpectedToolCalls => "Message required from tool call result".to_owned(),
            TurnError::ToolNotFound(error) => error.to_string(),
            TurnError::ToolInvocation(failure) => failure.error.clone(),
            TurnError::ModelBackend(message) => message.clone(),
            TurnError::UnexpectedEvent => "Event out of order".to_owned(),
        }
    }
}

/// What happened since the turn last said what to do.
#[derive(Debug, PartialEq)]
pub enum Event {
    /// The model's stream delivered a delta.
    Delta(StreamDelta),
    /// The model's stream ended.
    EndOfStream,
    /// The model's stream could not be opened or broke off.
    StreamFailed(String),
    /// The consumer took the token.
    SendOk,
    /// The token could not be sent: the consumer is gone.
    SendFailed,
    /// All invocations have finished, with these results in the order of the
    /// calls.
    ToolsFinished(Vec<ToolInvocationResult>),
}

/// The mathematical value of an `Event`.
pub enum EventModel {
    Delta(DeltaModel),
    EndOfStream,
    StreamFailed(Seq<char>),
    SendOk,
    SendFailed,
    ToolsFinished(Seq<ResultModel>),
}

impl View for Event {
    type V = EventModel;

    open spec fn view(&self) -> EventModel {
        match *self {
            Event::Delta(delta) => EventModel::Delta(delta@),
            Event::EndOfStream => EventModel::EndOfStream,
            Event::StreamFailed(message) => EventModel::StreamFailed(message@),
            Event::SendOk => EventModel::SendOk,
            Event::SendFailed => EventModel::SendFailed,
            Event::ToolsFinished(results) => EventModel::ToolsFinished(views(results@)),
        }
    }
}

/// What the caller is to do next.
#[derive(Clone, Debug, PartialEq, Eq)]
pub enum Action {
    /// Open a stream with this request and report its first item.
    OpenStream(ModelRequest),
    /// Report the next item of the stream.
    NextDelta,
    /// Send this token to the consumer and report whether it was taken.
    Send(WebSocketToken),
    /// Invoke these calls, all at once, and report the results of all of
    /// them in this order. Every call names a registered tool.
    InvokeTools(Vec<AccumulatedToolCall>),
    /// The turn is over, with this answer.
    Finish(TurnOutcome),
    /// The turn failed.
    Fail(TurnError),
}

/// The mathematical value of an `Action`.
pub enum ActionModel {
    OpenStream(RequestModel),
    NextDelta,
    Send(TokenModel),
    InvokeTools(Seq<CallModel>),
    Finish(OutcomeModel),
    Fail(TurnErrorModel),
}

impl View for Action {
    type V = ActionModel;

    open spec fn view(&self) -> ActionModel {
        match *self {
            Action::OpenStream(request) => ActionModel::OpenStream(request@),
            Action::NextDelta => ActionModel::NextDelta,
            Action::Send(token) => ActionModel::Send(token@),
            Action::InvokeTools(calls) => ActionModel::InvokeTools(views(calls@)),
            Action::Finish(outcome) => ActionModel::Finish(outcome@),
            Action::Fail(error) => ActionModel::Fail(error@),
        }
    }
}

/// Where a turn stands.
#[derive(Clone, Copy, Debug, PartialEq, Eq, Structural)]
pub enum TurnStage {
    /// The first pass over the model's stream.
    Stream1,
    /// The tools are running.
    ToolExec,
    /// The second pass, after the tool round.
    Stream2,
    /// The turn has an answer.
    Done,
    /// The turn failed.
    Failed,
}

/// The mathematical value of a `Turn`.
pub struct TurnModel {
    pub stage: TurnStage,
    /// The pass that is under way.
    pub pass: PassModel,
    /// The calls whose results are awaited.
    pub calls: Seq<CallModel>,
    /// The request of the second pass, without the tool round and without
    /// tools; none once it has been used or the turn is over.
    pub follow_up: Option<RequestModel>,
    /// The names of the registered tools.
    pub names: Set<Seq<char>>,
}

/// A turn that has come to rest in the given stage.
pub open spec fn halted(turn: TurnModel, stage: TurnStage) -> TurnModel {
    TurnModel { stage, pass: closed_pass(), calls: Seq::empty(), follow_up: None, names: turn.names }
}

/// What a turn does with what its pass wants done.
pub open spec fn settle(turn: TurnModel, pass: PassModel, action: PassActionModel) -> (TurnModel, ActionModel) {
    match action {
        PassActionModel::Next => (TurnModel { pass, ..turn }, ActionModel::NextDelta),
        PassActionModel::Relay(token) => (TurnModel { pass, ..turn }, ActionModel::Send(token)),
        PassActionModel::Complete(ResultingModel::Message(text)) | PassActionModel::Complete(
            ResultingModel::Disconnected(text),
        ) => (
            halted(turn, TurnStage::Done),
            ActionModel::Finish(OutcomeModel { text, tool_assisted: turn.stage == TurnStage::Stream2 }),
        ),
        PassActionModel::Complete(ResultingModel::ToolCalls(calls)) => if turn.stage == TurnStage::Stream1 {
            let at = first_unknown(calls, turn.names);
            if at < calls.len() {
                (
                    halted(turn, TurnStage::Failed),
                    ActionModel::Fail(TurnErrorModel::ToolNotFound { name: calls[at].name }),
                )
            } else {
                (
                    TurnModel { stage: TurnStage::ToolExec, pass: closed_pass(), calls, ..turn },
                    ActionModel::InvokeTools(calls),
                )
            }
        } else {
            (halted(turn, TurnStage::Failed), ActionModel::Fail(TurnErrorModel::UnexpectedToolCalls))
        },
        PassActionModel::Abort(StreamFault::ProtocolViolation) => (
            halted(turn, TurnStage::Failed),
            ActionModel::Fail(TurnErrorModel::ProtocolViolation),
        ),
        PassActionModel::Abort(StreamFault::OutOfOrder) => (
            halted(turn, TurnStage::Failed),
            ActionModel::Fail(TurnErrorModel::UnexpectedEvent),
        ),
    }
}

/// What a turn does with the results of its tools: it fails on results that
/// do not answer the calls one by one, fails on the first failed invocation,
/// and otherwise opens the second pass with the tool round added to the
/// request.
pub open spec fn tools_finished(turn: TurnModel, results: Seq<ResultModel>) -> (TurnModel, ActionModel) {
    match turn.follow_up {
        Some(request) => if !answers(results, turn.calls) {
            (halted(turn, TurnStage::Failed), ActionModel::Fail(TurnErrorModel::UnexpectedEvent))
        } else {
            let at = first_failure(results);
            if at < results.len() {
                (
                    halted(turn, TurnStage::Failed),
                    ActionModel::Fail(
                        TurnErrorModel::ToolInvocation { id: results[at].id(), error: results[at]->error },
                    ),
                )
            } else {
                (
                    TurnModel {
                        stage: TurnStage::Stream2,
                        pass: fresh_pass(),
                        calls: Seq::empty(),
                        follow_up: None,
                        names: turn.names,
                    },
                    ActionModel::OpenStream(with_tool_round(request, turn.calls, results)),
                )
            }
        },
        None => (halted(turn, TurnStage::Failed), ActionModel::Fail(TurnErrorModel::UnexpectedEvent)),
    }
}

/// The turn after an event, and what the caller is to do next.
pub open spec fn turn_step(turn: TurnModel, event: EventModel) -> (TurnModel, ActionModel) {
    match turn.stage {
        TurnStage::Stream1 | TurnStage::Stream2 => match event {
            EventModel::Delta(delta) => {
                let (pass, action) = pass_step(turn.pass, StreamEventModel::Delta(delta));
                settle(turn, pass, action)
            },
            EventModel::EndOfStream => {
                let (pass, action) = pass_step(turn.pass, StreamEventModel::End);
                settle(turn, pass, action)
            },
            EventModel::SendOk => {
                let (pass, action) = pass_step(turn.pass, StreamEventModel::SendOk);
                settle(turn, pass, action)
            },
            EventModel::SendFailed => {
                let (pass, action) = pass_step(turn.pass, StreamEventModel::SendFailed);
                settle(turn, pass, action)
            },
            EventModel::StreamFailed(message) => (
                halted(turn, TurnStage::Failed),
                ActionModel::Fail(TurnErrorModel::ModelBackend { message }),
            ),
            EventModel::ToolsFinished(_) => (
                halted(turn, TurnStage::Failed),
                ActionModel::Fail(TurnErrorModel::UnexpectedEvent),
            ),
        },
        TurnStage::ToolExec => match event {
            EventModel::ToolsFinished(results) => tools_finished(turn, results),
            _ => (halted(turn, TurnStage::Failed), ActionModel::Fail(TurnErrorModel::UnexpectedEvent)),
        },
        TurnStage::Done | TurnStage::Failed => (turn, ActionModel::Fail(TurnErrorModel::UnexpectedEvent)),
    }
}

/// The names of some tools.
pub open spec fn tool_names<T: Tool>(tools: Option<Vec<T>>) -> Set<Seq<char>> {
    match tools {
        Some(tools) => Set::new(
            |name: Seq<char>| exists|i: int| 0 <= i < tools@.len() && (#[trigger] tools@[i]).spec_name() == name,
        ),
        None => Set::empty(),
    }
}

/// The lookup of a turn's tools: each name leads to the last of the given
/// tools that has that name.
pub open spec fn registered_tools<T: Tool>(tools: Option<Vec<T>>) -> Map<Seq<char>, T> {
    match tools {
        Some(tools) => registered(tools@),
        None => Map::empty(),
    }
}

/// A turn as it begins for the assistant `bot`.
pub open spec fn opening_turn<T: Tool>(
    bot: Bot<T>,
    previous: Seq<crate::request::StoredModel>,
    new_message: Seq<char>,
) -> TurnModel {
    TurnModel {
        stage: TurnStage::Stream1,
        pass: fresh_pass(),
        calls: Seq::empty(),
        follow_up: Some(turn_request(bot, None, previous, new_message)),
        names: tool_names(bot.tools),
    }
}

/// Whether some results answer some calls one by one.
pub fn check_answers(results: &Vec<ToolInvocationResult>, calls: &Vec<AccumulatedToolCall>) -> (matching: bool)
    ensures
        matching == answers(views(results@), views(calls@)),
{
    if results.len() != calls.len() {
        return false;
    }
    let mut i: usize = 0;
    while i < results.len()
        invariant
            i <= results.len(),
            results.len() == calls.len(),
            forall|j: int| 0 <= j < i ==> (#[trigger] views(results@)[j]).id() == views(calls@)[j].id,
        decreases results.len() - i,
    {
        if !str_eq(results[i].id(), calls[i].id.as_str()) {
            assert(views(results@)[i as int].id() != views(calls@)[i as int].id);
            return false;
        }
        i += 1;
    }
    true
}

/// A turn under way.
pub struct Turn<T: Tool> {
    stage: TurnStage,
    pass: StreamPass,
    calls: Vec<AccumulatedToolCall>,
    follow_up: Option<ModelRequest>,
    registry: ToolRegistry<T>,
}

impl<T: Tool> View for Turn<T> {
    type V = TurnModel;

    closed spec fn view(&self) -> TurnModel {
        TurnModel {
            stage: self.stage,
            pass: self.pass@,
            calls: views(self.calls@),
            follow_up: match self.follow_up {
                Some(request) => Some(request@),
                None => None,
            },
            names: self.registry@.dom(),
        }
    }
}

/// Begins a turn: builds the request from the system prompt, the stored
/// conversation and the new user message, with the assistant's tools, and
/// registers each tool under its name. The caller is told to open the
/// stream with that request.
pub fn chat_with_tools<T: Tool>(bot: Bot<T>, previous_messages: &Vec<Message>, new_message: &str) -> (begun: (
    Turn<T>,
    Action,
))
    ensures
        begun.0@ == opening_turn(bot, views(previous_messages@), new_message@),
        begun.0.tools() == registered_tools(bot.tools),
        begun.1@ == ActionModel::OpenStream(
            turn_request(bot, bot.tools, views(previous_messages@), new_message@),
        ),
{
    let request = construct_messages(get_req(&bot, &bot.tools), previous_messages, new_message);
    let follow_up = construct_messages(get_req(&bot, &None), previous_messages, new_message);
    let mut registry: ToolRegistry<T> = ToolRegistry::new();
    let ghost all = bot.tools;
    match bot.tools {
        Some(tools) => {
            let mut tools = tools;
            let ghost given = tools@;
            let ghost mut taken: int = 0;
            assert(registry@.dom() =~= Set::new(
                |name: Seq<char>| exists|i: int| 0 <= i < 0 && (#[trigger] given[i]).spec_name() == name,
            ));
            assert(registry@ =~= registered(given.take(0)));
            while tools.len() > 0
                invariant
                    0 <= taken <= given.len(),
                    tools@ == given.skip(taken),
                    registry@ == registered(given.take(taken)),
                    registry@.dom() == Set::new(
                        |name: Seq<char>|
                            exists|i: int| 0 <= i < taken && (#[trigger] given[i]).spec_name() == name,
                    ),
                decreases tools.len(),
            {
                let tool = tools.remove(0);
                let ghost before = registry@.dom();
                registry.register(tool);
                proof {
                    assert(tool == given[taken]);
                    lemma_registered_next(given.take(taken), tool);
                    assert(given.take(taken + 1) =~= given.take(taken).push(tool));
                    assert(tools@ =~= given.skip(taken + 1));
                    assert(registry@.dom() =~= before.insert(tool.spec_name()));
                    assert forall|name: Seq<char>| #[trigger]
                        before.insert(tool.spec_name()).contains(name) == (exists|i: int|
                            0 <= i < taken + 1 && (#[trigger] given[i]).spec_name() == name) by {
                        if before.contains(name) {
                            let i = choose|i: int| 0 <= i < taken && (#[trigger] given[i]).spec_name() == name;
                            assert(0 <= i < taken + 1 && given[i].spec_name() == name);
                        }
                        if name == tool.spec_name() {
                            assert(given[taken].spec_name() == name);
                        }
                    }
                    assert(registry@.dom() =~= Set::new(
                        |name: Seq<char>|
                            exists|i: int| 0 <= i < taken + 1 && (#[trigger] given[i]).spec_name() == name,
                    ));
                    taken = taken + 1;
                }
            }
            assert(taken == given.len());
            assert(given.take(taken) =~= given);
            assert(registry@.dom() =~= tool_names(all));
        },
        None => {
            assert(registry@.dom() =~= tool_names(all));
        },
    }
    let turn = Turn {
        stage: TurnStage::Stream1,
        pass: StreamPass::new(),
        calls: Vec::new(),
        follow_up: Some(follow_up),
        registry,
    };
    assert(views(turn.calls@) =~= Seq::<CallModel>::empty());
    (turn, Action::OpenStream(request))
}

impl<T: Tool> Turn<T> {
    /// Where the turn stands.
    pub fn stage(&self) -> (stage: TurnStage)
        ensures
            stage == self@.stage,
    {
        self.stage
    }

    /// The lookup of the turn's tools, from name to tool. It is fixed when
    /// the turn begins and never changes.
    pub closed spec fn tools(&self) -> Map<Seq<char>, T> {
        self.registry@
    }

    /// The tools of the turn, by name.
    pub fn registry(&self) -> (registry: &ToolRegistry<T>)
        ensures
            registry@ == self.tools(),
            registry@.dom() == self@.names,
    {
        &self.registry
    }

    /// Brings the turn to rest in the given stage.
    fn halt(&mut self, stage: TurnStage)
        ensures
            final(self)@ == halted(old(self)@, stage),
            final(self).tools() == old(self).tools(),
    {
        self.stage = stage;
        self.pass = StreamPass::closed();
        self.calls = Vec::new();
        self.follow_up = None;
        assert(views(self.calls@) =~= Seq::<CallModel>::empty());
    }

    /// Acts on what the pass wants done.
    fn settle(&mut self, wanted: PassAction) -> (action: Action)
        ensures
            (final(self)@, action@) == settle(old(self)@, old(self)@.pass, wanted@),
            final(self).tools() == old(self).tools(),
    {
        match wanted {
            PassAction::Next => Action::NextDelta,
            PassAction::Relay(token) => Action::Send(token),
            PassAction::Complete(ChatStreamResult::Message(text)) => {
                let tool_assisted = self.stage == TurnStage::Stream2;
                self.halt(TurnStage::Done);
                Action::Finish(TurnOutcome { text, tool_assisted })
            },
            PassAction::Complete(ChatStreamResult::Disconnected(text)) => {
                let tool_assisted = self.stage == TurnStage::Stream2;
                self.halt(TurnStage::Done);
                Action::Finish(TurnOutcome { text, tool_assisted })
            },
            PassAction::Complete(ChatStreamResult::ToolCalls(calls)) => {
                if self.stage == TurnStage::Stream1 {
                    match check_tools(&calls, &self.registry) {
                        Ok(_) => {
                            let wanted_calls = duplicate_calls(&calls);
                            self.stage = TurnStage::ToolExec;
                            self.pass = StreamPass::closed();
                            self.calls = calls;
                            Action::InvokeTools(wanted_calls)
                        },
                        Err(error) => {
                            proof {
                                let at = first_unknown(views(calls@), self.registry@.dom());
                                assert(views(calls@)[at] == calls@[at]@);
                            }
                            self.halt(TurnStage::Failed);
                            Action::Fail(TurnError::ToolNotFound(error))
                        },
                    }
                } else {
                    self.halt(TurnStage::Failed);
                    Action::Fail(TurnError::UnexpectedToolCalls)
                }
            },
            PassAction::Abort(StreamFault::ProtocolViolation) => {
                self.halt(TurnStage::Failed);
                Action::Fail(TurnError::ProtocolViolation)
            },
            PassAction::Abort(StreamFault::OutOfOrder) => {
                self.halt(TurnStage::Failed);
                Action::Fail(TurnError::UnexpectedEvent)
            },
        }
    }

    /// Hands an event of the stream or of the consumer to the pass.
    fn stream_step(&mut self, event: StreamEvent) -> (action: Action)
        ensures
            (final(self)@, action@) == ({
                let (pass, wanted) = pass_step(old(self)@.pass, event@);
                settle(old(self)@, pass, wanted)
            }),
            final(self).tools() == old(self).tools(),
    {
        let wanted = self.pass.step(event);
        self.settle(wanted)
    }

    /// Acts on the results of the tools.
    fn tools_finished(&mut self, results: Vec<ToolInvocationResult>) -> (action: Action)
        ensures
            (final(self)@, action@) == tools_finished(old(self)@, views(results@)),
            final(self).tools() == old(self).tools(),
    {
        let mut follow_up: Option<ModelRequest> = None;
        std::mem::swap(&mut follow_up, &mut self.follow_up);
        match follow_up {
            Some(request) => {
                if !check_answers(&results, &self.calls) {
                    self.halt(TurnStage::Failed);
                    Action::Fail(TurnError::UnexpectedEvent)
                } else {
                    match tool_response(request, &self.calls, &results) {
                        Ok(second) => {
                            self.stage = TurnStage::Stream2;
                            self.pass = StreamPass::new();
                            self.calls = Vec::new();
                            assert(views(self.calls@) =~= Seq::<CallModel>::empty());
                            Action::OpenStream(second)
                        },
                        Err(failure) => {
                            self.halt(TurnStage::Failed);
                            Action::Fail(TurnError::ToolInvocation(failure))
                        },
                    }
                }
            },
            None => {
                self.halt(TurnStage::Failed);
                Action::Fail(TurnError::UnexpectedEvent)
            },
        }
    }

    /// Takes in what happened and says what the caller is to do next.
    pub fn step(&mut self, event: Event) -> (action: Action)
        ensures
            (final(self)@, action@) == turn_step(old(self)@, event@),
            final(self).tools() == old(self).tools(),
    {
        match self.stage {
            TurnStage::Stream1 | TurnStage::Stream2 => match event {
                Event::Delta(delta) => self.stream_step(StreamEvent::Delta(delta)),
                Event::EndOfStream => self.stream_step(StreamEvent::End),
                Event::SendOk => self.stream_step(StreamEvent::SendOk),
                Event::SendFailed => self.stream_step(StreamEvent::SendFailed),
                Event::StreamFailed(message) => {
                    self.halt(TurnStage::Failed);
                    Action::Fail(TurnError::ModelBackend(message))
                },
                Event::ToolsFinished(_) => {
                    self.halt(TurnStage::Failed);
                    Action::Fail(TurnError::UnexpectedEvent)
                },
            },
            TurnStage::ToolExec => match event {
                Event::ToolsFinished(results) => self.tools_finished(results),
                _ => {
                    self.halt(TurnStage::Failed);
                    Action::Fail(TurnError::UnexpectedEvent)
                },
            },
            TurnStage::Done | TurnStage::Failed => Action::Fail(TurnError::UnexpectedEvent),
        }
    }
}

} // verus!
