use draid::accumulator::{construct_tool_call, AccumulatedToolCall, ToolCallAccumulator};
use draid::delta::{
    finish_reason, get_end_of_thinking, get_final_tokens_from_stream, has_content, has_tool_calls,
    FinishReason,
    StreamChoice, StreamDelta, ToolCallFragment,
};

fn fragment(index: u32, id: Option<&str>, name: Option<&str>, arguments: Option<&str>) -> ToolCallFragment {
    ToolCallFragment {
        index,
        id: id.map(str::to_string),
        name: name.map(str::to_string),
        arguments: arguments.map(str::to_string),
    }
}

fn call(choice: u32, index: u32, id: &str, name: &str, arguments: &str) -> AccumulatedToolCall {
    AccumulatedToolCall {
        choice_index: choice,
        call_index: index,
        id: id.to_string(),
        name: name.to_string(),
        arguments: arguments.to_string(),
    }
}

fn choice(index: u32, content: Option<&str>, tool_calls: Option<Vec<ToolCallFragment>>) -> StreamChoice {
    StreamChoice { index, content: content.map(str::to_string), tool_calls, finish_reason: None }
}

#[test]
fn accumulator_starts_empty() {
    let acc = ToolCallAccumulator::new();
    assert!(acc.is_empty());
    assert_eq!(acc.len(), 0);
    assert!(acc.calls().is_empty());
}

#[test]
fn fragments_of_one_call_reassemble() {
    let mut acc = ToolCallAccumulator::new();
    acc.ingest_fragment(0, &fragment(0, Some("c1"), Some("calculator"), Some("{\"a\":")));
    acc.ingest_fragment(0, &fragment(0, None, None, Some("1,\"b\":2}")));
    assert_eq!(acc.len(), 1);
    assert_eq!(acc.calls()[0], call(0, 0, "c1", "calculator", "{\"a\":1,\"b\":2}"));
}

#[test]
fn every_split_of_the_arguments_gives_the_same_call() {
    let whole = "{\"a\":1,\"b\":2}";
    for first in 0..=whole.len() {
        for second in first..=whole.len() {
            let pieces = [&whole[..first], &whole[first..second], &whole[second..]];
            let mut acc = ToolCallAccumulator::new();
            acc.ingest_fragment(3, &fragment(7, Some("id"), Some("tool"), Some(pieces[0])));
            acc.ingest(3, &vec![fragment(7, None, None, Some(pieces[1])), fragment(7, None, None, Some(pieces[2]))]);
            assert_eq!(acc.into_calls(), vec![call(3, 7, "id", "tool", whole)]);
        }
    }
}

#[test]
fn id_and_name_stay_as_first_given() {
    let mut acc = ToolCallAccumulator::new();
    acc.ingest_fragment(0, &fragment(0, Some("c1"), Some("calculator"), None));
    acc.ingest_fragment(0, &fragment(0, None, None, Some("{}")));
    acc.ingest_fragment(0, &fragment(0, Some("other"), Some("renamed"), Some("x")));
    assert_eq!(acc.calls()[0], call(0, 0, "c1", "calculator", "{}x"));
}

#[test]
fn first_fragment_without_id_gets_the_placeholder() {
    let mut acc = ToolCallAccumulator::new();
    acc.ingest_fragment(0, &fragment(0, None, None, None));
    assert_eq!(acc.calls()[0], call(0, 0, "123", "", ""));
}

#[test]
fn anonymous_calls_share_the_placeholder_but_stay_apart() {
    let mut acc = ToolCallAccumulator::new();
    acc.ingest_fragment(0, &fragment(0, None, Some("a"), Some("1")));
    acc.ingest_fragment(0, &fragment(1, None, Some("b"), Some("2")));
    acc.ingest_fragment(0, &fragment(0, None, None, Some("3")));
    assert_eq!(acc.into_calls(), vec![call(0, 0, "123", "a", "13"), call(0, 1, "123", "b", "2")]);
}

#[test]
fn interleaved_calls_keep_their_own_arguments_and_first_come_order() {
    let mut acc = ToolCallAccumulator::new();
    acc.ingest(
        1,
        &vec![
            fragment(1, Some("y"), Some("second"), Some("b")),
            fragment(0, Some("x"), Some("first"), Some("a")),
            fragment(1, None, None, Some("bb")),
            fragment(0, None, None, Some("aa")),
        ],
    );
    acc.ingest_fragment(0, &fragment(0, Some("z"), Some("other_choice"), Some("c")));
    assert_eq!(
        acc.into_calls(),
        vec![
            call(1, 1, "y", "second", "bbb"),
            call(1, 0, "x", "first", "aaa"),
            call(0, 0, "z", "other_choice", "c"),
        ]
    );
}

#[test]
fn construct_tool_call_takes_in_a_whole_delta() {
    let delta = StreamDelta {
        choices: vec![
            choice(0, None, Some(vec![fragment(0, Some("c1"), Some("calculator"), Some("{"))])),
            choice(1, Some("text"), None),
            choice(0, None, Some(vec![fragment(0, None, None, Some("}"))])),
        ],
    };
    let acc = construct_tool_call(&delta);
    assert_eq!(acc.into_calls(), vec![call(0, 0, "c1", "calculator", "{}")]);
}

#[test]
fn delta_text_joins_the_contents_of_the_choices() {
    let delta = StreamDelta {
        choices: vec![choice(0, Some("Hel"), None), choice(1, None, None), choice(2, Some("lo"), None)],
    };
    assert_eq!(get_final_tokens_from_stream(&delta), "Hello");
    assert_eq!(get_final_tokens_from_stream(&StreamDelta { choices: vec![] }), "");
}

#[test]
fn finish_reason_is_the_first_reported() {
    let mut first = choice(0, None, None);
    let mut second = choice(1, None, None);
    let mut third = choice(2, None, None);
    assert_eq!(finish_reason(&StreamDelta { choices: vec![first.clone(), second.clone()] }), None);
    second.finish_reason = Some(FinishReason::ToolCalls);
    third.finish_reason = Some(FinishReason::Stop);
    assert_eq!(
        finish_reason(&StreamDelta { choices: vec![first.clone(), second.clone(), third.clone()] }),
        Some(FinishReason::ToolCalls)
    );
    first.finish_reason = Some(FinishReason::Length);
    assert_eq!(
        finish_reason(&StreamDelta { choices: vec![first, second, third] }),
        Some(FinishReason::Length)
    );
}

#[test]
fn tool_calls_are_seen_even_when_empty() {
    assert!(!has_tool_calls(&StreamDelta { choices: vec![choice(0, Some("x"), None)] }));
    assert!(has_tool_calls(&StreamDelta { choices: vec![choice(0, None, None), choice(1, None, Some(vec![]))] }));
}

#[test]
fn end_of_thinking_needs_the_marker_in_a_delivered_delta() {
    let thinking: Result<StreamDelta, String> = Ok(StreamDelta { choices: vec![choice(0, Some("hm"), None)] });
    let done: Result<StreamDelta, String> =
        Ok(StreamDelta { choices: vec![choice(0, Some("so </thi"), None), choice(1, Some("nk>"), None)] });
    let failed: Result<StreamDelta, String> = Err("</think>".to_string());
    assert!(!get_end_of_thinking(&thinking));
    assert!(get_end_of_thinking(&done));
    assert!(!get_end_of_thinking(&failed));
}

#[test]
fn content_is_seen_even_when_empty() {
    assert!(has_content(&StreamDelta { choices: vec![choice(0, None, None), choice(1, Some(""), None)] }));
    assert!(has_content(&StreamDelta { choices: vec![choice(0, Some("x"), None)] }));
    assert!(!has_content(&StreamDelta { choices: vec![choice(0, None, Some(vec![]))] }));
    assert!(!has_content(&StreamDelta { choices: vec![] }));
}
