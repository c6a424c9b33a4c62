use draid::auth::{
    bearer_token, has_role, Admin, AuthError, AuthenticatedUser, Claims, Helper, Role, Tutor, UserResponse,
    TOKEN_LIFETIME,
};
use draid::config::KB;
use draid::dispatch::{check_tools, get_truncation_index};
use draid::accumulator::AccumulatedToolCall;
use draid::kb_tools::{get_tools, KBTool};
use draid::marker::contains_stop_word;
use draid::models::{LLMError, NoData};
use draid::tools::{AddTool, KnowledgeBasePaulGraham, TimeTool, Tool, ToolEntry, ToolError, ToolRegistry};
use draid::turn::TurnError;

fn named(name: &str) -> AccumulatedToolCall {
    AccumulatedToolCall {
        choice_index: 0,
        call_index: 0,
        id: "id".to_string(),
        name: name.to_string(),
        arguments: String::new(),
    }
}

#[test]
fn stop_word_is_found_anywhere_and_only_whole() {
    assert!(contains_stop_word("</think>"));
    assert!(contains_stop_word("a</think>b"));
    assert!(!contains_stop_word("</think"));
    assert!(!contains_stop_word("< /think>"));
    assert!(!contains_stop_word(""));
}

#[test]
fn built_in_tools_describe_themselves() {
    assert_eq!(AddTool.name(), "calculator");
    assert_eq!(AddTool.description(), "Add some numbers");
    assert_eq!(TimeTool.name(), "time");
    assert_eq!(TimeTool.description(), "Get current time");
    assert_eq!(KnowledgeBasePaulGraham.name(), "knowledge_base_paul_graham");
    assert_eq!(KnowledgeBasePaulGraham.description(), "Knowledge base containing information on Paul Graham");
}

#[test]
fn tool_schemas_are_json_objects() {
    for schema in [AddTool.parameters(), TimeTool.parameters(), KnowledgeBasePaulGraham.parameters()] {
        let value: serde_json::Value = serde_json::from_str(&schema).expect("valid JSON");
        assert_eq!(value["type"], serde_json::Value::String("object".to_string()));
        assert!(value["properties"].is_object());
        assert!(value["required"].is_array());
    }
    let add: serde_json::Value = serde_json::from_str(&AddTool.parameters()).unwrap();
    assert_eq!(add["required"].as_array().unwrap().len(), 2);
    assert_eq!(add["properties"]["a"]["description"].as_str(), Some("First number"));
    assert_eq!(add["properties"]["b"]["type"].as_str(), Some("number"));
}

#[test]
fn registry_finds_what_was_registered() {
    let mut registry: ToolRegistry<KBTool> = ToolRegistry::new();
    assert!(!registry.contains("recipes"));
    assert!(registry.resolve("recipes").is_none());
    registry.register(KBTool::new("http://a".to_string(), KB { name: "recipes".to_string(), num_results: 3 }));
    registry.register(KBTool::new("http://b".to_string(), KB { name: "gardening".to_string(), num_results: 5 }));
    assert!(registry.contains("recipes"));
    assert!(registry.contains("gardening"));
    assert!(!registry.contains("recipe"));
    assert_eq!(registry.resolve("gardening").map(|tool| tool.num_results()), Some(5));
    assert_eq!(registry.resolve("recipes").map(|tool| tool.url().to_string()), Some("http://a".to_string()));
}

#[test]
fn registering_a_name_again_replaces_the_tool() {
    let mut registry: ToolRegistry<KBTool> = ToolRegistry::new();
    registry.register(KBTool::new("http://old".to_string(), KB { name: "recipes".to_string(), num_results: 1 }));
    registry.register(KBTool::new("http://x".to_string(), KB { name: "other".to_string(), num_results: 2 }));
    registry.register(KBTool::new("http://new".to_string(), KB { name: "recipes".to_string(), num_results: 9 }));
    let found = registry.resolve("recipes").expect("registered");
    assert_eq!(found.url(), "http://new");
    assert_eq!(found.num_results(), 9);
    assert_eq!(registry.resolve("other").map(|tool| tool.num_results()), Some(2));
}

#[test]
fn check_tools_names_the_first_unknown_tool() {
    let mut registry: ToolRegistry<AddTool> = ToolRegistry::new();
    registry.register(AddTool);
    assert_eq!(check_tools(&vec![named("calculator"), named("calculator")], &registry), Ok(()));
    assert_eq!(check_tools(&vec![], &registry), Ok(()));
    assert_eq!(
        check_tools(&vec![named("calculator"), named("missing"), named("gone")], &registry),
        Err(ToolError { name: "missing".to_string() })
    );
}

#[test]
fn tool_error_says_which_tool() {
    assert_eq!(ToolError { name: "calculator".to_string() }.to_string(), "Tool calculator not found");
}

#[test]
fn kb_tool_is_made_from_its_configuration() {
    let tool = KBTool::new("http://127.0.0.1:3000".to_string(), KB { name: "recipes".to_string(), num_results: 3 });
    assert_eq!(tool.name(), "recipes");
    assert_eq!(tool.description(), "Knowledge base containing information on recipes");
    assert_eq!(tool.url(), "http://127.0.0.1:3000");
    assert_eq!(tool.num_results(), 3);
    assert_eq!(tool.search_url(), "http://127.0.0.1:3000/knowledge_base/recipes/similar");
    assert_eq!(tool.parameters(), KnowledgeBasePaulGraham.parameters());
}

#[test]
fn get_tools_makes_one_tool_for_each_knowledge_base() {
    let tools = get_tools(
        vec![
            KB { name: "recipes".to_string(), num_results: 3 },
            KB { name: "gardening".to_string(), num_results: 4 },
        ],
        "http://kb",
    );
    assert_eq!(
        tools,
        vec![
            KBTool::new("http://kb".to_string(), KB { name: "recipes".to_string(), num_results: 3 }),
            KBTool::new("http://kb".to_string(), KB { name: "gardening".to_string(), num_results: 4 }),
        ]
    );
    assert!(get_tools(vec![], "http://kb").is_empty());
}

#[test]
fn truncation_index_is_at_most_fifty_bytes() {
    assert_eq!(get_truncation_index(&String::new()), 0);
    assert_eq!(get_truncation_index(&"abc".to_string()), 3);
    assert_eq!(get_truncation_index(&"x".repeat(49)), 49);
    assert_eq!(get_truncation_index(&"x".repeat(50)), 50);
    assert_eq!(get_truncation_index(&"x".repeat(500)), 50);
    assert_eq!(get_truncation_index(&"é".repeat(10)), 20);
}

#[test]
fn turn_errors_have_their_words() {
    assert_eq!(TurnError::ProtocolViolation.to_string(), "Finish reason is ToolCalls, but no tools to call!");
    assert_eq!(TurnError::UnexpectedToolCalls.to_string(), "Message required from tool call result");
    assert_eq!(TurnError::ToolNotFound(ToolError { name: "t".to_string() }).to_string(), "Tool t not found");
    assert_eq!(TurnError::ModelBackend("down".to_string()).to_string(), "down");
    assert_eq!(TurnError::UnexpectedEvent.to_string(), "Event out of order");
    assert_eq!(LLMError::new(&TurnError::ModelBackend("down".to_string())).msg, "down");
    assert_eq!(LLMError { msg: "m".to_string() }.to_string(), "m");
    assert_eq!(NoData { msg: "No session".to_string() }.to_string(), "No session");
}

fn user(roles: Vec<Role>) -> UserResponse {
    UserResponse { id: uuid::Uuid::from_u128(7), username: "ada".to_string(), roles }
}

#[test]
fn roles_admit_or_refuse() {
    assert!(has_role(&vec![Role::Helper, Role::Admin], Role::Admin));
    assert!(!has_role(&vec![Role::Helper], Role::Admin));
    assert!(!has_role(&vec![], Role::Tutor));
    assert_eq!(
        Admin::from_user(user(vec![Role::Tutor, Role::Admin])),
        Some(Admin { id: uuid::Uuid::from_u128(7), username: "ada".to_string() })
    );
    assert_eq!(Admin::from_user(user(vec![Role::Tutor, Role::Helper])), None);
    assert_eq!(
        Tutor::from_user(user(vec![Role::Tutor])),
        Some(Tutor { id: uuid::Uuid::from_u128(7), username: "ada".to_string() })
    );
    assert_eq!(Tutor::from_user(user(vec![Role::Admin])), None);
    assert_eq!(
        Helper::from_user(user(vec![Role::Helper])),
        Some(Helper { id: uuid::Uuid::from_u128(7), username: "ada".to_string() })
    );
    assert_eq!(Helper::from_user(user(vec![])), None);
    assert_eq!(
        AuthenticatedUser::from_user(user(vec![])),
        AuthenticatedUser { id: uuid::Uuid::from_u128(7), username: "ada".to_string() }
    );
}

#[test]
fn role_names_are_lower_case() {
    assert_eq!(Role::Admin.to_string(), "admin");
    assert_eq!(Role::Helper.to_string(), "helper");
    assert_eq!(Role::Tutor.to_string(), "tutor");
}

#[test]
fn claims_expire_after_half_an_hour() {
    let claims = Claims::issue("ada".to_string(), 1_000);
    assert_eq!(claims, Claims { sub: "ada".to_string(), iat: 1_000, exp: 2_800 });
    assert_eq!(TOKEN_LIFETIME, 60 * 30);
}

#[test]
fn bearer_token_is_what_follows_the_scheme() {
    assert_eq!(bearer_token("Bearer abc.def"), Ok("abc.def"));
    assert_eq!(bearer_token("Bearer "), Ok(""));
    assert_eq!(
        bearer_token("Basic abc"),
        Err(AuthError { msg: "Header does not start with Bearer".to_string() })
    );
    assert_eq!(
        bearer_token("bearer abc").map_err(|error| error.to_string()),
        Err("Header does not start with Bearer".to_string())
    );
    assert!(bearer_token("Bearer").is_err());
}

#[test]
fn tool_entry_describes_the_tool_it_was_made_of() {
    let entry = ToolEntry::of(&AddTool, 7u8);
    assert_eq!(entry.name(), "calculator");
    assert_eq!(entry.description(), "Add some numbers");
    assert_eq!(entry.parameters(), AddTool.parameters());
    assert_eq!(entry.handle, 7);

    let mut registry: ToolRegistry<ToolEntry<u8>> = ToolRegistry::new();
    registry.register(entry);
    registry.register(ToolEntry::of(&TimeTool, 9u8));
    assert_eq!(registry.resolve("time").map(|entry| entry.handle), Some(9));
    assert_eq!(registry.resolve("calculator").map(|entry| entry.handle), Some(7));
}
