use serde_json::Value;
use spice_framework::multi_turn::{first_turn_with_tools, tools_in_range};
use spice_framework::{AgentConfig, AgentOutput, ToolCall, Turn};
use std::time::Duration;

fn call(id: &str, name: &str) -> ToolCall {
    ToolCall { id: id.to_string(), name: name.to_string(), arguments: Value::Null }
}

fn turn(index: usize, calls: Vec<ToolCall>) -> Turn {
    Turn {
        index,
        output_text: None,
        tool_calls: calls,
        tool_results: vec![],
        stop_reason: None,
        duration: Duration::from_millis(5),
    }
}

fn sample_output() -> AgentOutput {
    AgentOutput {
        final_text: "It is sunny in Chicago".to_string(),
        turns: vec![
            turn(0, vec![call("c1", "getWeather"), call("c2", "lookup")]),
            turn(1, vec![]),
            turn(2, vec![call("c3", "getWeather")]),
            turn(3, vec![call("c4", "sendEmail")]),
        ],
        tools_called: vec!["getWeather".to_string(), "lookup".to_string()],
        duration: Duration::from_secs(1),
        error: None,
    }
}

#[test]
fn agent_config_empty_is_null() {
    assert!(AgentConfig::empty().data.is_null());
    assert!(AgentConfig::default().data.is_null());
    let c = AgentConfig::new(Value::Bool(true));
    assert_eq!(c.data, Value::Bool(true));
}

#[test]
fn all_tool_calls_flattens_turns_in_order() {
    let out = sample_output();
    let ids: Vec<&str> = out.all_tool_calls().iter().map(|c| c.id.as_str()).collect();
    assert_eq!(ids, vec!["c1", "c2", "c3", "c4"]);
}

#[test]
fn all_tool_calls_of_no_turns_is_empty() {
    let mut out = sample_output();
    out.turns.clear();
    assert!(out.all_tool_calls().is_empty());
}

#[test]
fn tool_calls_by_name_filters() {
    let out = sample_output();
    let ids: Vec<&str> = out.tool_calls_by_name("getWeather").iter().map(|c| c.id.as_str()).collect();
    assert_eq!(ids, vec!["c1", "c3"]);
    assert!(out.tool_calls_by_name("getweather").is_empty());
    assert_eq!(out.tool_calls_by_name("sendEmail").len(), 1);
}

#[test]
fn tools_in_range_selects_turn_indices() {
    let out = sample_output();
    assert_eq!(tools_in_range(&out, &(0..=1)), vec!["getWeather", "lookup"]);
    assert_eq!(tools_in_range(&out, &(2..=3)), vec!["getWeather", "sendEmail"]);
    assert_eq!(tools_in_range(&out, &(1..=1)), Vec::<String>::new());
    assert_eq!(tools_in_range(&out, &(7..=9)), Vec::<String>::new());
}

#[test]
fn tools_in_range_full_range_is_all_calls() {
    let out = sample_output();
    let all: Vec<String> = out.all_tool_calls().iter().map(|c| c.name.clone()).collect();
    assert_eq!(tools_in_range(&out, &(0..=usize::MAX)), all);
}

#[test]
fn tools_in_range_follows_the_index_field() {
    let mut out = sample_output();
    out.turns[0].index = 9;
    assert_eq!(tools_in_range(&out, &(0..=1)), Vec::<String>::new());
    assert_eq!(tools_in_range(&out, &(9..=9)), vec!["getWeather", "lookup"]);
}

#[test]
fn first_turn_with_tools_finds_first() {
    let out = sample_output();
    assert_eq!(first_turn_with_tools(&out, &["sendEmail".to_string()]), Some(3));
    assert_eq!(first_turn_with_tools(&out, &["lookup".to_string(), "sendEmail".to_string()]), Some(0));
    assert_eq!(first_turn_with_tools(&out, &["getWeather".to_string()]), Some(0));
    assert_eq!(first_turn_with_tools(&out, &["deleteAll".to_string()]), None);
    assert_eq!(first_turn_with_tools(&out, &[]), None);
}

#[test]
fn first_turn_has_one_of_the_tools_in_its_range() {
    let out = sample_output();
    let tools = vec!["sendEmail".to_string()];
    let k = first_turn_with_tools(&out, &tools).unwrap();
    let names = tools_in_range(&out, &(k..=k));
    assert!(names.iter().any(|n| tools.contains(n)));
}

#[test]
fn empty_range_gives_no_tools() {
    let out = sample_output();
    let r = 3..=1;
    assert_eq!(tools_in_range(&out, &r), Vec::<String>::new());
}

#[test]
fn sub_range_gives_subsequence() {
    let out = sample_output();
    let small = tools_in_range(&out, &(2..=2));
    let big = tools_in_range(&out, &(0..=3));
    assert_eq!(small, vec!["getWeather"]);
    let mut rest = big.iter();
    assert!(small.iter().all(|n| rest.any(|m| m == n)));
}

#[test]
fn first_turn_found_iff_some_call_matches() {
    let out = sample_output();
    for tools in [vec!["lookup"], vec!["nothing"], vec!["sendEmail", "x"], vec![]] {
        let tools: Vec<String> = tools.into_iter().map(|s| s.to_string()).collect();
        let any = out.all_tool_calls().iter().any(|c| tools.contains(&c.name));
        assert_eq!(first_turn_with_tools(&out, &tools).is_some(), any);
    }
}

#[test]
fn more_tools_never_lose_a_turn() {
    let out = sample_output();
    let few = vec!["sendEmail".to_string()];
    let more = vec!["nothing".to_string(), "sendEmail".to_string(), "lookup".to_string()];
    assert!(first_turn_with_tools(&out, &few).is_some());
    assert!(first_turn_with_tools(&out, &more).is_some());
}
