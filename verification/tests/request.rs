use draid::request::{
    construct_messages, get_req, Bot, Message, MessageType, ModelRequest, RequestMessage, ToolChoice,
};
use draid::tools::{AddTool, Tool};

fn empty_request() -> ModelRequest {
    ModelRequest {
        model: String::new(),
        stream: false,
        temperature: None,
        presence_penalty: None,
        top_p: None,
        tool_choice: None,
        tools: None,
        messages: vec![],
    }
}

#[test]
fn it_constructs_messages_correctly() {
    let req = empty_request();
    let previous_messages = vec![
        Message { message_type: MessageType::SystemMessage, content: "System message".to_string() },
        Message { message_type: MessageType::HumanMessage, content: "User message".to_string() },
        Message { message_type: MessageType::AIMessage, content: "AI message".to_string() },
    ];
    let new_message = "New user message";

    let result = construct_messages(req, &previous_messages, new_message);

    assert_eq!(result.messages.len(), 4);

    match &result.messages[0] {
        RequestMessage::System { content } => assert_eq!(content, "System message"),
        _ => panic!("Expected System message"),
    }
    match &result.messages[1] {
        RequestMessage::User { content } => assert_eq!(content, "User message"),
        _ => panic!("Expected User message"),
    }
    match &result.messages[2] {
        RequestMessage::Assistant { content: Some(text), .. } => assert_eq!(text, "AI message"),
        RequestMessage::Assistant { .. } => panic!("Expected Text content"),
        _ => panic!("Expected Assistant message"),
    }
    match &result.messages[3] {
        RequestMessage::User { content } => assert_eq!(content, "New user message"),
        _ => panic!("Expected User message"),
    }
}

#[test]
fn it_gets_req_correctly() {
    let bot: Bot<AddTool> = Bot::new(
        "model".to_string(),
        "system prompt",
        "http://localhost:11434",
        Some(0.5f32.to_bits()),
        Some(0.6f32.to_bits()),
        Some(0.7f32.to_bits()),
        None,
    );

    let result = get_req(&bot, &None);

    assert_eq!(result.model, "model");
    assert_eq!(result.temperature.map(f32::from_bits), Some(0.5));
    assert_eq!(result.presence_penalty.map(f32::from_bits), Some(0.6));
    assert_eq!(result.top_p.map(f32::from_bits), Some(0.7));
    assert_eq!(result.messages.len(), 1);
    match &result.messages[0] {
        RequestMessage::System { content } => assert_eq!(content, "system prompt"),
        _ => panic!("Expected System message"),
    }
}

#[test]
fn bot_keeps_the_api_base() {
    let bot: Bot<AddTool> = Bot::new("m".to_string(), "p", "http://localhost:11434", None, None, None, None);
    assert_eq!(bot.api_base, "http://localhost:11434/v1");
    assert_eq!(bot.system_prompt, "p");
    assert!(bot.tools.is_none());
}

#[test]
fn request_is_streamed_and_leaves_tools_to_the_model() {
    let bot: Bot<AddTool> = Bot::new("m".to_string(), "p", "e", None, None, None, Some(vec![AddTool]));
    let with_tools = get_req(&bot, &bot.tools);
    assert!(with_tools.stream);
    assert_eq!(with_tools.tool_choice, Some(ToolChoice::Auto));
    let schemas = with_tools.tools.expect("tool manifest");
    assert_eq!(schemas.len(), 1);
    assert_eq!(schemas[0].name, "calculator");
    assert_eq!(schemas[0].description, "Add some numbers");
    assert_eq!(schemas[0].parameters, AddTool.parameters());

    let without = get_req(&bot, &None);
    assert!(without.stream);
    assert_eq!(without.tool_choice, Some(ToolChoice::Auto));
    assert!(without.tools.is_none());
    assert_eq!(without.temperature, None);
}

#[test]
fn stored_tool_message_is_replayed_without_a_call_id() {
    let previous = vec![Message { message_type: MessageType::ToolMessage, content: "42".to_string() }];
    let result = construct_messages(empty_request(), &previous, "hi");
    assert_eq!(
        result.messages,
        vec![
            RequestMessage::Tool { content: "42".to_string(), tool_call_id: String::new() },
            RequestMessage::User { content: "hi".to_string() },
        ]
    );
}

#[test]
fn conversation_is_added_after_the_messages_already_there() {
    let mut req = empty_request();
    req.model = "m".to_string();
    req.messages.push(RequestMessage::System { content: "s".to_string() });
    let result = construct_messages(req, &vec![], "only");
    assert_eq!(result.model, "m");
    assert_eq!(
        result.messages,
        vec![
            RequestMessage::System { content: "s".to_string() },
            RequestMessage::User { content: "only".to_string() },
        ]
    );
}
