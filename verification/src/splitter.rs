//! One pass over a model's stream: the reasoning segment, then the answer.
//!
//! The pass does no I/O. It is told what happened (a delta arrived, the
//! stream ended, a token was sent or could not be sent) and says what is to
//! be done next.

use crate::accumulator::{ingest_delta, AccumulatedToolCall, CallModel, ToolCallAccumulator};
use crate::delta::{
    finish_reason, get_final_tokens_from_stream, has_content, DeltaModel, FinishReason, StreamDelta,
};
use crate::marker::contains_stop_word;
use crate::text::views;
use vstd::prelude::*;

verus! {

/// What kind of text a relayed token is.
#[derive(Clone, Copy, Debug, PartialEq, Eq, Structural)]
pub enum TokenCategory {
    /// Part of the answer.
    Message,
    /// Part of the model's reasoning.
    ChainOfThought,
}

/// A piece of text on its way to the consumer.
#[derive(Clone, Debug, PartialEq, Eq)]
pub struct WebSocketToken {
    pub token_type: TokenCategory,
    pub tokens: String,
}

/// The mathematical value of a `WebSocketToken`.
pub struct TokenModel {
    pub token_type: TokenCategory,
    pub tokens: Seq<char>,
}

impl View for WebSocketToken {
    type V = TokenModel;

    open spec fn view(&self) -> TokenModel {
        TokenModel { token_type: self.token_type, tokens: self.tokens@ }
    }
}

/// Where a pass stands.
#[derive(Clone, Copy, Debug, PartialEq, Eq, Structural)]
pub enum PassPhase {
    /// In the reasoning segment, waiting for the next delta.
    Reasoning,
    /// A reasoning token is on its way to the consumer.
    ReasoningRelay,
    /// In the answer, waiting for the next delta.
    Answer,
    /// An answer token is on its way to the consumer.
    AnswerRelay,
    /// The pass is over.
    Closed,
}

/// What happened since the pass last said what to do.
#[derive(Clone, Debug, PartialEq, Eq)]
pub enum StreamEvent {
    /// The stream delivered a delta.
    Delta(StreamDelta),
    /// The stream ended.
    End,
    /// The consumer took the token.
    SendOk,
    /// The token could not be sent: the consumer is gone.
    SendFailed,
}

/// The mathematical value of a `StreamEvent`.
pub enum StreamEventModel {
    Delta(DeltaModel),
    End,
    SendOk,
    SendFailed,
}

impl View for StreamEvent {
    type V = StreamEventModel;

    open spec fn view(&self) -> StreamEventModel {
        match *self {
            StreamEvent::Delta(delta) => StreamEventModel::Delta(delta@),
            StreamEvent::End => StreamEventModel::End,
            StreamEvent::SendOk => StreamEventModel::SendOk,
            StreamEvent::SendFailed => StreamEventModel::SendFailed,
        }
    }
}

/// How a pass ended.
#[derive(Clone, Debug, PartialEq, Eq)]
pub enum ChatStreamResult {
    /// The model answered; this is the answer.
    Message(String),
    /// The model asked for these tool calls.
    ToolCalls(Vec<AccumulatedToolCall>),
    /// The consumer went away; this is the answer as far as it was sent.
    Disconnected(String),
}

/// The mathematical value of a `ChatStreamResult`.
pub enum ResultingModel {
    Message(Seq<char>),
    ToolCalls(Seq<CallModel>),
    Disconnected(Seq<char>),
}

impl View for ChatStreamResult {
    type V = ResultingModel;

    open spec fn view(&self) -> ResultingModel {
        match *self {
            ChatStreamResult::Message(text) => ResultingModel::Message(text@),
            ChatStreamResult::ToolCalls(calls) => ResultingModel::ToolCalls(views(calls@)),
            ChatStreamResult::Disconnected(text) => ResultingModel::Disconnected(text@),
        }
    }
}

/// Why a pass was broken off.
#[derive(Clone, Copy, Debug, PartialEq, Eq, Structural)]
pub enum StreamFault {
    /// The model finished for tool calls without having named any.
    ProtocolViolation,
    /// The pass was told of something it was not waiting for.
    OutOfOrder,
}

/// What is to be done next.
#[derive(Clone, Debug, PartialEq, Eq)]
pub enum PassAction {
    /// Wait for the next item of the stream.
    Next,
    /// Send this token to the consumer.
    Relay(WebSocketToken),
    /// The pass is over, with this result.
    Complete(ChatStreamResult),
    /// The pass is over, with this fault.
    Abort(StreamFault),
}

/// The mathematical value of a `PassAction`.
pub enum PassActionModel {
    Next,
    Relay(TokenModel),
    Complete(ResultingModel),
    Abort(StreamFault),
}

impl View for PassAction {
    type V = PassActionModel;

    open spec fn view(&self) -> PassActionModel {
        match *self {
            PassAction::Next => PassActionModel::Next,
            PassAction::Relay(token) => PassActionModel::Relay(token@),
            PassAction::Complete(result) => PassActionModel::Complete(result@),
            PassAction::Abort(fault) => PassActionModel::Abort(fault),
        }
    }
}

/// The mathematical value of a `StreamPass`.
pub struct PassModel {
    pub phase: PassPhase,
    /// The answer as far as the consumer has taken it.
    pub answer: Seq<char>,
    /// The token that is on its way to the consumer.
    pub pending: Seq<char>,
    /// The tool calls gathered so far.
    pub calls: Seq<CallModel>,
}

/// A pass before the first delta.
pub open spec fn fresh_pass() -> PassModel {
    PassModel {
        phase: PassPhase::Reasoning,
        answer: Seq::empty(),
        pending: Seq::empty(),
        calls: Seq::empty(),
    }
}

/// A pass that is over.
pub open spec fn closed_pass() -> PassModel {
    PassModel { phase: PassPhase::Closed, answer: Seq::empty(), pending: Seq::empty(), calls: Seq::empty() }
}

/// A delta in the reasoning segment: one that holds the stop marker ends the
/// segment and is dropped. Any other delta that carries content, be it the
/// empty text, is relayed as reasoning. A delta in which no choice carries
/// content has nothing to relay, and nothing is sent for it.
pub open spec fn reasoning_delta(pass: PassModel, delta: DeltaModel) -> (PassModel, PassActionModel) {
    if delta.ends_thinking() {
        (PassModel { phase: PassPhase::Answer, ..pass }, PassActionModel::Next)
    } else if !delta.has_content() {
        (pass, PassActionModel::Next)
    } else {
        (
            PassModel { phase: PassPhase::ReasoningRelay, pending: delta.text(), ..pass },
            PassActionModel::Relay(
                TokenModel { token_type: TokenCategory::ChainOfThought, tokens: delta.text() },
            ),
        )
    }
}

/// A delta in the answer: its tool-call fragments are taken in; then a
/// finish reason ends the pass. Otherwise, if the delta carries content, be
/// it the empty text, that content is relayed as part of the answer; a delta
/// in which no choice carries content has nothing to relay, and nothing is
/// sent for it.
pub open spec fn answer_delta(pass: PassModel, delta: DeltaModel) -> (PassModel, PassActionModel) {
    let calls = ingest_delta(pass.calls, delta);
    match delta.finish_reason() {
        None => if !delta.has_content() {
            (PassModel { calls, ..pass }, PassActionModel::Next)
        } else {
            (
                PassModel { phase: PassPhase::AnswerRelay, pending: delta.text(), calls, ..pass },
                PassActionModel::Relay(TokenModel { token_type: TokenCategory::Message, tokens: delta.text() }),
            )
        },
        Some(FinishReason::ToolCalls) => if calls.len() == 0 {
            (closed_pass(), PassActionModel::Abort(StreamFault::ProtocolViolation))
        } else {
            (closed_pass(), PassActionModel::Complete(ResultingModel::ToolCalls(calls)))
        },
        Some(_) => (closed_pass(), PassActionModel::Complete(ResultingModel::Message(pass.answer))),
    }
}

/// The pass after an event, and what is to be done next.
pub open spec fn pass_step(pass: PassModel, event: StreamEventModel) -> (PassModel, PassActionModel) {
    match (pass.phase, event) {
        (PassPhase::Reasoning, StreamEventModel::Delta(delta)) => reasoning_delta(pass, delta),
        (PassPhase::Answer, StreamEventModel::Delta(delta)) => answer_delta(pass, delta),
        (PassPhase::Reasoning, StreamEventModel::End) | (PassPhase::Answer, StreamEventModel::End) => (
            closed_pass(),
            PassActionModel::Complete(ResultingModel::Message(pass.answer)),
        ),
        (PassPhase::ReasoningRelay, StreamEventModel::SendOk) => (
            PassModel { phase: PassPhase::Reasoning, pending: Seq::empty(), ..pass },
            PassActionModel::Next,
        ),
        (PassPhase::AnswerRelay, StreamEventModel::SendOk) => (
            PassModel {
                phase: PassPhase::Answer,
                answer: pass.answer + pass.pending,
                pending: Seq::empty(),
                ..pass
            },
            PassActionModel::Next,
        ),
        (PassPhase::ReasoningRelay, StreamEventModel::SendFailed) | (
            PassPhase::AnswerRelay,
            StreamEventModel::SendFailed,
        ) => (closed_pass(), PassActionModel::Complete(ResultingModel::Disconnected(pass.answer))),
        _ => (closed_pass(), PassActionModel::Abort(StreamFault::OutOfOrder)),
    }
}

/// One pass over a model's stream.
pub struct StreamPass {
    phase: PassPhase,
    answer: String,
    pending: String,
    calls: ToolCallAccumulator,
}

impl View for StreamPass {
    type V = PassModel;

    closed spec fn view(&self) -> PassModel {
        PassModel { phase: self.phase, answer: self.answer@, pending: self.pending@, calls: self.calls@ }
    }
}

impl StreamPass {
    /// A pass before the first delta.
    pub fn new() -> (pass: Self)
        ensures
            pass@ == fresh_pass(),
    {
        StreamPass {
            phase: PassPhase::Reasoning,
            answer: String::new(),
            pending: String::new(),
            calls: ToolCallAccumulator::new(),
        }
    }

    /// A pass that is over.
    pub fn closed() -> (pass: Self)
        ensures
            pass@ == closed_pass(),
    {
        StreamPass {
            phase: PassPhase::Closed,
            answer: String::new(),
            pending: String::new(),
            calls: ToolCallAccumulator::new(),
        }
    }

    /// Where the pass stands.
    pub fn phase(&self) -> (phase: PassPhase)
        ensures
            phase == self@.phase,
    {
        self.phase
    }

    /// The answer as far as the consumer has taken it.
    pub fn answer(&self) -> (answer: &str)
        ensures
            answer@ == self@.answer,
    {
        self.answer.as_str()
    }

    /// Ends the pass and hands out the answer and the calls it held.
    fn close(&mut self) -> (held: (String, Vec<AccumulatedToolCall>))
        ensures
            final(self)@ == closed_pass(),
            held.0@ == old(self)@.answer,
            views(held.1@) == old(self)@.calls,
    {
        let mut answer = String::new();
        std::mem::swap(&mut answer, &mut self.answer);
        let mut calls = ToolCallAccumulator::new();
        std::mem::swap(&mut calls, &mut self.calls);
        self.pending = String::new();
        self.phase = PassPhase::Closed;
        (answer, calls.into_calls())
    }

    /// Takes in what happened and says what is to be done next.
    pub fn step(&mut self, event: StreamEvent) -> (action: PassAction)
        ensures
            (final(self)@, action@) == pass_step(old(self)@, event@),
    {
        match self.phase {
            PassPhase::Reasoning => match event {
                StreamEvent::Delta(delta) => {
                    let tokens = get_final_tokens_from_stream(&delta);
                    if contains_stop_word(tokens.as_str()) {
                        self.phase = PassPhase::Answer;
                        PassAction::Next
                    } else if !has_content(&delta) {
                        PassAction::Next
                    } else {
                        self.pending = tokens.clone();
                        self.phase = PassPhase::ReasoningRelay;
                        PassAction::Relay(
                            WebSocketToken { token_type: TokenCategory::ChainOfThought, tokens },
                        )
                    }
                },
                StreamEvent::End => {
                    let held = self.close();
                    PassAction::Complete(ChatStreamResult::Message(held.0))
                },
                _ => {
                    let _ = self.close();
                    PassAction::Abort(StreamFault::OutOfOrder)
                },
            },
            PassPhase::Answer => match event {
                StreamEvent::Delta(delta) => {
                    let tokens = get_final_tokens_from_stream(&delta);
                    self.calls.ingest_delta(&delta);
                    match finish_reason(&delta) {
                        None => {
                            if !has_content(&delta) {
                                PassAction::Next
                            } else {
                                self.pending = tokens.clone();
                                self.phase = PassPhase::AnswerRelay;
                                PassAction::Relay(
                                    WebSocketToken { token_type: TokenCategory::Message, tokens },
                                )
                            }
                        },
                        Some(FinishReason::ToolCalls) => {
                            let held = self.close();
                            if held.1.len() == 0 {
                                PassAction::Abort(StreamFault::ProtocolViolation)
                            } else {
                                PassAction::Complete(ChatStreamResult::ToolCalls(held.1))
                            }
                        },
                        Some(_) => {
                            let held = self.close();
                            PassAction::Complete(ChatStreamResult::Message(held.0))
                        },
                    }
                },
                StreamEvent::End => {
                    let held = self.close();
                    PassAction::Complete(ChatStreamResult::Message(held.0))
                },
                _ => {
                    let _ = self.close();
                    PassAction::Abort(StreamFault::OutOfOrder)
                },
            },
            PassPhase::ReasoningRelay => match event {
                StreamEvent::SendOk => {
                    self.pending = String::new();
                    self.phase = PassPhase::Reasoning;
                    PassAction::Next
                },
                StreamEvent::SendFailed => {
                    let held = self.close();
                    PassAction::Complete(ChatStreamResult::Disconnected(held.0))
                },
                _ => {
                    let _ = self.close();
                    PassAction::Abort(StreamFault::OutOfOrder)
                },
            },
            PassPhase::AnswerRelay => match event {
                StreamEvent::SendOk => {
                    let mut sent = String::new();
                    std::mem::swap(&mut sent, &mut self.pending);
                    self.answer.append(sent.as_str());
                    self.phase = PassPhase::Answer;
                    PassAction::Next
                },
                StreamEvent::SendFailed => {
                    let held = self.close();
                    PassAction::Complete(ChatStreamResult::Disconnected(held.0))
                },
                _ => {
                    let _ = self.close();
                    PassAction::Abort(StreamFault::OutOfOrder)
                },
            },
            PassPhase::Closed => {
                let _ = self.close();
                PassAction::Abort(StreamFault::OutOfOrder)
            },
        }
    }
}

} // verus!
