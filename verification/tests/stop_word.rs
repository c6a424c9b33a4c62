use draid::marker::contains_stop_word;

#[test]
fn llm_it_returns_true_if_contains_stop_word() {
    let result = contains_stop_word("hello </think>");
    assert!(result);
}

#[test]
fn llm_it_returns_false_if_does_not_contain_stop_word() {
    let result = contains_stop_word("hello");
    assert!(!result);
}
