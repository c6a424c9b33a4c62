use draid::accumulator::AccumulatedToolCall;
use draid::delta::{FinishReason, StreamChoice, StreamDelta, ToolCallFragment};
use draid::dispatch::{tool_response, ToolInvocationError, ToolInvocationResult};
use draid::request::{Bot, Message, MessageType, ModelRequest, RequestMessage};
use draid::splitter::{
    ChatStreamResult, PassAction, PassPhase, StreamEvent, StreamFault, StreamPass, TokenCategory, WebSocketToken,
};
use draid::tools::{AddTool, TimeTool, ToolEntry, ToolError};
use draid::turn::{chat_with_tools, check_answers, Action, Event, Turn, TurnError, TurnOutcome, TurnStage};

fn content(text: &str) -> StreamDelta {
    StreamDelta {
        choices: vec![StreamChoice {
            index: 0,
            content: Some(text.to_string()),
            tool_calls: None,
            finish_reason: None,
        }],
    }
}

fn finished(reason: FinishReason) -> StreamDelta {
    StreamDelta {
        choices: vec![StreamChoice { index: 0, content: None, tool_calls: None, finish_reason: Some(reason) }],
    }
}

fn fragment(call: u32, id: Option<&str>, name: Option<&str>, arguments: Option<&str>) -> StreamDelta {
    StreamDelta {
        choices: vec![StreamChoice {
            index: 0,
            content: None,
            tool_calls: Some(vec![ToolCallFragment {
                index: call,
                id: id.map(str::to_string),
                name: name.map(str::to_string),
                arguments: arguments.map(str::to_string),
            }]),
            finish_reason: None,
        }],
    }
}

fn token(token_type: TokenCategory, tokens: &str) -> WebSocketToken {
    WebSocketToken { token_type, tokens: tokens.to_string() }
}

fn call(index: u32, id: &str, name: &str, arguments: &str) -> AccumulatedToolCall {
    AccumulatedToolCall {
        choice_index: 0,
        call_index: index,
        id: id.to_string(),
        name: name.to_string(),
        arguments: arguments.to_string(),
    }
}

fn payload(id: &str, json: &str) -> ToolInvocationResult {
    ToolInvocationResult::Payload { id: id.to_string(), payload: serde_json::from_str(json).unwrap() }
}

fn helper() -> Bot<AddTool> {
    Bot::new("model".to_string(), "be kind", "http://localhost:11434", None, None, None, Some(vec![AddTool]))
}

fn history() -> Vec<Message> {
    vec![
        Message { message_type: MessageType::HumanMessage, content: "hello".to_string() },
        Message { message_type: MessageType::AIMessage, content: "hi".to_string() },
    ]
}

fn begin() -> Turn<AddTool> {
    let (turn, action) = chat_with_tools(helper(), &history(), "what is 1+2?");
    assert!(matches!(action, Action::OpenStream(_)));
    turn
}

fn answering() -> Turn<AddTool> {
    let mut turn = begin();
    assert_eq!(turn.step(Event::Delta(content("</think>"))), Action::NextDelta);
    turn
}

fn finish(text: &str, tool_assisted: bool) -> Action {
    Action::Finish(TurnOutcome { text: text.to_string(), tool_assisted })
}

#[test]
fn turn_opens_with_prompt_history_message_and_tools() {
    let (turn, action) = chat_with_tools(helper(), &history(), "what is 1+2?");
    assert_eq!(turn.stage(), TurnStage::Stream1);
    assert!(turn.registry().contains("calculator"));
    assert!(!turn.registry().contains("time"));
    let request = match action {
        Action::OpenStream(request) => request,
        other => panic!("unexpected action {:?}", other),
    };
    assert_eq!(request.model, "model");
    assert_eq!(request.tools.as_ref().map(|tools| tools.len()), Some(1));
    assert_eq!(
        request.messages,
        vec![
            RequestMessage::System { content: "be kind".to_string() },
            RequestMessage::User { content: "hello".to_string() },
            RequestMessage::Assistant { content: Some("hi".to_string()), tool_calls: None },
            RequestMessage::User { content: "what is 1+2?".to_string() },
        ]
    );
}

#[test]
fn reasoning_is_relayed_apart_and_the_marker_dropped() {
    let mut turn = begin();
    assert_eq!(
        turn.step(Event::Delta(content("let me see"))),
        Action::Send(token(TokenCategory::ChainOfThought, "let me see"))
    );
    assert_eq!(turn.step(Event::SendOk), Action::NextDelta);
    assert_eq!(turn.step(Event::Delta(content("done </think> now"))), Action::NextDelta);
    assert_eq!(turn.step(Event::Delta(content("Three"))), Action::Send(token(TokenCategory::Message, "Three")));
    assert_eq!(turn.step(Event::SendOk), Action::NextDelta);
    assert_eq!(turn.step(Event::Delta(content("."))), Action::Send(token(TokenCategory::Message, ".")));
    assert_eq!(turn.step(Event::SendOk), Action::NextDelta);
    assert_eq!(turn.step(Event::Delta(finished(FinishReason::Stop))), finish("Three.", false));
    assert_eq!(turn.stage(), TurnStage::Done);
}

#[test]
fn stream_without_marker_gives_an_empty_answer() {
    let mut turn = begin();
    assert_eq!(
        turn.step(Event::Delta(content("all of this is thought"))),
        Action::Send(token(TokenCategory::ChainOfThought, "all of this is thought"))
    );
    assert_eq!(turn.step(Event::SendOk), Action::NextDelta);
    assert_eq!(turn.step(Event::EndOfStream), finish("", false));
}

#[test]
fn empty_content_is_relayed_and_absent_content_is_not() {
    let absent = StreamDelta {
        choices: vec![StreamChoice { index: 0, content: None, tool_calls: None, finish_reason: None }],
    };
    let mut turn = begin();
    assert_eq!(turn.step(Event::Delta(content(""))), Action::Send(token(TokenCategory::ChainOfThought, "")));
    assert_eq!(turn.step(Event::SendOk), Action::NextDelta);
    assert_eq!(turn.step(Event::Delta(absent.clone())), Action::NextDelta);
    assert_eq!(turn.step(Event::Delta(StreamDelta { choices: vec![] })), Action::NextDelta);
    assert_eq!(turn.step(Event::Delta(content("</think>"))), Action::NextDelta);
    assert_eq!(turn.step(Event::Delta(content(""))), Action::Send(token(TokenCategory::Message, "")));
    assert_eq!(turn.step(Event::SendOk), Action::NextDelta);
    assert_eq!(turn.step(Event::Delta(absent)), Action::NextDelta);
    assert_eq!(turn.step(Event::Delta(StreamDelta { choices: vec![] })), Action::NextDelta);
    assert_eq!(turn.step(Event::Delta(content("a"))), Action::Send(token(TokenCategory::Message, "a")));
    assert_eq!(turn.step(Event::SendOk), Action::NextDelta);
    assert_eq!(turn.step(Event::EndOfStream), finish("a", false));
}

#[test]
fn every_content_delta_of_the_answer_gives_one_token() {
    let pieces = ["It ", "", "is ", "3", ""];
    let mut turn = answering();
    for piece in pieces {
        assert_eq!(turn.step(Event::Delta(content(piece))), Action::Send(token(TokenCategory::Message, piece)));
        assert_eq!(turn.step(Event::SendOk), Action::NextDelta);
    }
    assert_eq!(turn.step(Event::Delta(finished(FinishReason::Stop))), finish("It is 3", false));
}

#[test]
fn disconnect_on_an_empty_token_ends_the_turn() {
    let mut turn = answering();
    assert_eq!(turn.step(Event::Delta(content("one"))), Action::Send(token(TokenCategory::Message, "one")));
    assert_eq!(turn.step(Event::SendOk), Action::NextDelta);
    assert_eq!(turn.step(Event::Delta(content(""))), Action::Send(token(TokenCategory::Message, "")));
    assert_eq!(turn.step(Event::SendFailed), finish("one", false));
}

#[test]
fn a_name_registered_twice_leads_to_the_later_tool() {
    let tools = vec![
        ToolEntry::of(&AddTool, 1u8),
        ToolEntry::of(&TimeTool, 2u8),
        ToolEntry::of(&AddTool, 3u8),
    ];
    let bot: Bot<ToolEntry<u8>> = Bot::new("m".to_string(), "p", "e", None, None, None, Some(tools));
    let (turn, action) = chat_with_tools(bot, &vec![], "hi");
    assert_eq!(turn.registry().resolve("calculator").map(|entry| entry.handle), Some(3));
    assert_eq!(turn.registry().resolve("time").map(|entry| entry.handle), Some(2));
    assert!(turn.registry().resolve("other").is_none());
    match action {
        Action::OpenStream(request) => assert_eq!(request.tools.map(|tools| tools.len()), Some(3)),
        other => panic!("unexpected action {:?}", other),
    }
}

#[test]
fn end_of_stream_finishes_with_the_answer_so_far() {
    let mut turn = answering();
    assert_eq!(turn.step(Event::Delta(content("partial"))), Action::Send(token(TokenCategory::Message, "partial")));
    assert_eq!(turn.step(Event::SendOk), Action::NextDelta);
    assert_eq!(turn.step(Event::EndOfStream), finish("partial", false));
}

#[test]
fn disconnect_returns_what_was_sent_before() {
    let mut turn = answering();
    for piece in ["one ", "two "] {
        assert_eq!(turn.step(Event::Delta(content(piece))), Action::Send(token(TokenCategory::Message, piece)));
        assert_eq!(turn.step(Event::SendOk), Action::NextDelta);
    }
    assert_eq!(turn.step(Event::Delta(content("three"))), Action::Send(token(TokenCategory::Message, "three")));
    assert_eq!(turn.step(Event::SendFailed), finish("one two ", false));
    assert_eq!(turn.stage(), TurnStage::Done);
}

#[test]
fn disconnect_on_the_first_token_returns_nothing() {
    let mut turn = answering();
    assert_eq!(turn.step(Event::Delta(content("one"))), Action::Send(token(TokenCategory::Message, "one")));
    assert_eq!(turn.step(Event::SendFailed), finish("", false));
}

#[test]
fn disconnect_while_reasoning_is_no_error() {
    let mut turn = begin();
    assert_eq!(turn.step(Event::Delta(content("hm"))), Action::Send(token(TokenCategory::ChainOfThought, "hm")));
    assert_eq!(turn.step(Event::SendFailed), finish("", false));
}

#[test]
fn tool_calls_without_calls_are_a_protocol_violation() {
    let mut turn = answering();
    assert_eq!(turn.step(Event::Delta(finished(FinishReason::ToolCalls))), Action::Fail(TurnError::ProtocolViolation));
    assert_eq!(turn.stage(), TurnStage::Failed);

    let mut with_empty_list = answering();
    let mut delta = finished(FinishReason::ToolCalls);
    delta.choices[0].tool_calls = Some(vec![]);
    assert_eq!(with_empty_list.step(Event::Delta(delta)), Action::Fail(TurnError::ProtocolViolation));
}

#[test]
fn end_to_end_tool_round() {
    let mut turn = answering();
    assert_eq!(
        turn.step(Event::Delta(fragment(0, Some("c1"), Some("calculator"), Some("{\"a\":")))),
        Action::NextDelta
    );
    assert_eq!(turn.step(Event::Delta(fragment(0, None, None, Some("1,\"b\":2}")))), Action::NextDelta);
    let calls = vec![call(0, "c1", "calculator", "{\"a\":1,\"b\":2}")];
    assert_eq!(turn.step(Event::Delta(finished(FinishReason::ToolCalls))), Action::InvokeTools(calls.clone()));
    assert_eq!(turn.stage(), TurnStage::ToolExec);

    let action = turn.step(Event::ToolsFinished(vec![payload("c1", "{\"result\":3}")]));
    assert_eq!(turn.stage(), TurnStage::Stream2);
    let request = match action {
        Action::OpenStream(request) => request,
        other => panic!("unexpected action {:?}", other),
    };
    assert!(request.tools.is_none());
    assert_eq!(
        request.messages,
        vec![
            RequestMessage::System { content: "be kind".to_string() },
            RequestMessage::User { content: "hello".to_string() },
            RequestMessage::Assistant { content: Some("hi".to_string()), tool_calls: None },
            RequestMessage::User { content: "what is 1+2?".to_string() },
            RequestMessage::Assistant { content: None, tool_calls: Some(calls) },
            RequestMessage::Tool { content: "{\"result\":3}".to_string(), tool_call_id: "c1".to_string() },
        ]
    );

    assert_eq!(turn.step(Event::Delta(content("thinking</think>"))), Action::NextDelta);
    assert_eq!(turn.step(Event::Delta(content("It is 3"))), Action::Send(token(TokenCategory::Message, "It is 3")));
    assert_eq!(turn.step(Event::SendOk), Action::NextDelta);
    assert_eq!(turn.step(Event::EndOfStream), finish("It is 3", true));
}

#[test]
fn text_before_a_tool_round_is_not_part_of_the_answer() {
    let mut turn = answering();
    assert_eq!(turn.step(Event::Delta(content("wait"))), Action::Send(token(TokenCategory::Message, "wait")));
    assert_eq!(turn.step(Event::SendOk), Action::NextDelta);
    assert_eq!(turn.step(Event::Delta(fragment(0, Some("c1"), Some("calculator"), Some("{}")))), Action::NextDelta);
    assert!(matches!(turn.step(Event::Delta(finished(FinishReason::ToolCalls))), Action::InvokeTools(_)));
    assert!(matches!(turn.step(Event::ToolsFinished(vec![payload("c1", "1")])), Action::OpenStream(_)));
    assert_eq!(turn.step(Event::Delta(content("</think>"))), Action::NextDelta);
    assert_eq!(turn.step(Event::Delta(content("ok"))), Action::Send(token(TokenCategory::Message, "ok")));
    assert_eq!(turn.step(Event::SendFailed), finish("", true));
}

#[test]
fn tool_round_keeps_the_order_of_the_calls() {
    let mut turn = answering();
    assert_eq!(turn.step(Event::Delta(fragment(1, Some("b"), Some("calculator"), Some("2")))), Action::NextDelta);
    assert_eq!(turn.step(Event::Delta(fragment(0, Some("a"), Some("calculator"), Some("1")))), Action::NextDelta);
    assert_eq!(turn.step(Event::Delta(fragment(2, Some("c"), Some("calculator"), Some("3")))), Action::NextDelta);
    let calls = vec![call(1, "b", "calculator", "2"), call(0, "a", "calculator", "1"), call(2, "c", "calculator", "3")];
    assert_eq!(turn.step(Event::Delta(finished(FinishReason::ToolCalls))), Action::InvokeTools(calls.clone()));
    let results = vec![payload("b", "[2]"), payload("a", "\"one\""), payload("c", "{\"n\": null}")];
    let request = match turn.step(Event::ToolsFinished(results)) {
        Action::OpenStream(request) => request,
        other => panic!("unexpected action {:?}", other),
    };
    let added: Vec<RequestMessage> = request.messages[4..].to_vec();
    assert_eq!(
        added,
        vec![
            RequestMessage::Assistant { content: None, tool_calls: Some(calls) },
            RequestMessage::Tool { content: "[2]".to_string(), tool_call_id: "b".to_string() },
            RequestMessage::Tool { content: "\"one\"".to_string(), tool_call_id: "a".to_string() },
            RequestMessage::Tool { content: "{\"n\":null}".to_string(), tool_call_id: "c".to_string() },
        ]
    );
}

#[test]
fn unknown_tool_fails_the_turn() {
    let mut turn = answering();
    assert_eq!(turn.step(Event::Delta(fragment(0, Some("c1"), Some("calculator"), None))), Action::NextDelta);
    assert_eq!(turn.step(Event::Delta(fragment(1, Some("c2"), Some("weather"), None))), Action::NextDelta);
    assert_eq!(
        turn.step(Event::Delta(finished(FinishReason::ToolCalls))),
        Action::Fail(TurnError::ToolNotFound(ToolError { name: "weather".to_string() }))
    );
    assert_eq!(turn.stage(), TurnStage::Failed);
}

#[test]
fn failed_tool_fails_the_turn() {
    let mut turn = answering();
    assert_eq!(turn.step(Event::Delta(fragment(0, Some("c1"), Some("calculator"), None))), Action::NextDelta);
    assert_eq!(turn.step(Event::Delta(fragment(1, Some("c2"), Some("calculator"), None))), Action::NextDelta);
    assert!(matches!(turn.step(Event::Delta(finished(FinishReason::ToolCalls))), Action::InvokeTools(_)));
    let results = vec![
        payload("c1", "1"),
        ToolInvocationResult::Error { id: "c2".to_string(), error: "bad arguments".to_string() },
    ];
    assert_eq!(
        turn.step(Event::ToolsFinished(results)),
        Action::Fail(TurnError::ToolInvocation(ToolInvocationError {
            id: "c2".to_string(),
            error: "bad arguments".to_string(),
        }))
    );
    assert_eq!(
        TurnError::ToolInvocation(ToolInvocationError { id: "c2".to_string(), error: "bad arguments".to_string() })
            .to_string(),
        "bad arguments"
    );
}

#[test]
fn results_must_answer_the_calls() {
    let calls = vec![call(0, "c1", "calculator", ""), call(1, "c2", "calculator", "")];
    assert!(check_answers(&vec![payload("c1", "1"), payload("c2", "2")], &calls));
    assert!(!check_answers(&vec![payload("c2", "2"), payload("c1", "1")], &calls));
    assert!(!check_answers(&vec![payload("c1", "1")], &calls));
    assert!(check_answers(&vec![], &vec![]));

    let mut turn = answering();
    assert_eq!(turn.step(Event::Delta(fragment(0, Some("c1"), Some("calculator"), None))), Action::NextDelta);
    assert!(matches!(turn.step(Event::Delta(finished(FinishReason::ToolCalls))), Action::InvokeTools(_)));
    assert_eq!(turn.step(Event::ToolsFinished(vec![payload("other", "1")])), Action::Fail(TurnError::UnexpectedEvent));
}

#[test]
fn tools_cannot_be_called_in_the_second_pass() {
    let mut turn = answering();
    assert_eq!(turn.step(Event::Delta(fragment(0, Some("c1"), Some("calculator"), None))), Action::NextDelta);
    assert!(matches!(turn.step(Event::Delta(finished(FinishReason::ToolCalls))), Action::InvokeTools(_)));
    assert!(matches!(turn.step(Event::ToolsFinished(vec![payload("c1", "1")])), Action::OpenStream(_)));
    assert_eq!(turn.step(Event::Delta(content("</think>"))), Action::NextDelta);
    assert_eq!(turn.step(Event::Delta(fragment(0, Some("c9"), Some("calculator"), None))), Action::NextDelta);
    assert_eq!(
        turn.step(Event::Delta(finished(FinishReason::ToolCalls))),
        Action::Fail(TurnError::UnexpectedToolCalls)
    );
}

#[test]
fn broken_stream_fails_the_turn() {
    let mut turn = answering();
    assert_eq!(
        turn.step(Event::StreamFailed("connection reset".to_string())),
        Action::Fail(TurnError::ModelBackend("connection reset".to_string()))
    );
    assert_eq!(turn.stage(), TurnStage::Failed);
    assert_eq!(turn.step(Event::EndOfStream), Action::Fail(TurnError::UnexpectedEvent));
}

#[test]
fn events_out_of_order_fail_the_turn() {
    let mut turn = begin();
    assert_eq!(turn.step(Event::SendOk), Action::Fail(TurnError::UnexpectedEvent));
    let mut second = begin();
    assert_eq!(second.step(Event::ToolsFinished(vec![])), Action::Fail(TurnError::UnexpectedEvent));
    let mut third = answering();
    assert!(matches!(third.step(Event::Delta(content("x"))), Action::Send(_)));
    assert_eq!(third.step(Event::Delta(content("y"))), Action::Fail(TurnError::UnexpectedEvent));
}

#[test]
fn pass_alone_follows_the_same_rules() {
    let mut pass = StreamPass::new();
    assert_eq!(pass.phase(), PassPhase::Reasoning);
    assert_eq!(pass.step(StreamEvent::Delta(content("</think>"))), PassAction::Next);
    assert_eq!(pass.phase(), PassPhase::Answer);
    assert_eq!(
        pass.step(StreamEvent::Delta(content("a"))),
        PassAction::Relay(token(TokenCategory::Message, "a"))
    );
    assert_eq!(pass.phase(), PassPhase::AnswerRelay);
    assert_eq!(pass.answer(), "");
    assert_eq!(pass.step(StreamEvent::SendOk), PassAction::Next);
    assert_eq!(pass.answer(), "a");
    assert_eq!(
        pass.step(StreamEvent::Delta(finished(FinishReason::Length))),
        PassAction::Complete(ChatStreamResult::Message("a".to_string()))
    );
    assert_eq!(pass.phase(), PassPhase::Closed);
    assert_eq!(pass.step(StreamEvent::End), PassAction::Abort(StreamFault::OutOfOrder));
    assert_eq!(StreamPass::closed().phase(), PassPhase::Closed);

    let mut gone = StreamPass::new();
    assert_eq!(gone.step(StreamEvent::Delta(content("</think>"))), PassAction::Next);
    assert!(matches!(gone.step(StreamEvent::Delta(content("a"))), PassAction::Relay(_)));
    assert_eq!(
        gone.step(StreamEvent::SendFailed),
        PassAction::Complete(ChatStreamResult::Disconnected(String::new()))
    );
}

#[test]
fn tool_response_adds_the_round_or_reports_the_first_failure() {
    let base = ModelRequest {
        model: "m".to_string(),
        stream: true,
        temperature: None,
        presence_penalty: None,
        top_p: None,
        tool_choice: None,
        tools: None,
        messages: vec![RequestMessage::User { content: "q".to_string() }],
    };
    let calls = vec![call(0, "c1", "calculator", "{}")];
    let ok = tool_response(base.clone(), &calls, &vec![payload("c1", "{\"result\": 3.5}")]).unwrap();
    assert_eq!(
        ok.messages,
        vec![
            RequestMessage::User { content: "q".to_string() },
            RequestMessage::Assistant { content: None, tool_calls: Some(calls.clone()) },
            RequestMessage::Tool { content: "{\"result\":3.5}".to_string(), tool_call_id: "c1".to_string() },
        ]
    );
    let failed = tool_response(
        base,
        &calls,
        &vec![
            ToolInvocationResult::Error { id: "c1".to_string(), error: "first".to_string() },
            ToolInvocationResult::Error { id: "c1".to_string(), error: "second".to_string() },
        ],
    );
    assert_eq!(failed, Err(ToolInvocationError { id: "c1".to_string(), error: "first".to_string() }));
}
