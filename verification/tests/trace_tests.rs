use spice_framework::clock::Timestamp;
use spice_framework::trace::Trace;
use spice_framework::AgentOutput;
use std::time::Duration;

#[test]
fn trace_new_keeps_fields_and_timestamp() {
    let at = chrono::DateTime::from_timestamp(1_725_029_869, 0).unwrap();
    let output = AgentOutput {
        final_text: "done".to_string(),
        turns: vec![],
        tools_called: vec![],
        duration: Duration::from_millis(3),
        error: None,
    };
    let t = Trace::new("basic-weather".to_string(), "Hi".to_string(), output, Timestamp(at));
    assert_eq!(t.test_id, "basic-weather");
    assert_eq!(t.user_message, "Hi");
    assert_eq!(t.output.final_text, "done");
    assert_eq!(t.timestamp.0, at);
}
