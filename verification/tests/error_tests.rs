use spice_framework::error::timeout_message;
use spice_framework::SpiceError;
use std::time::Duration;

#[test]
fn messages_of_framework_errors() {
    assert_eq!(SpiceError::AgentError("no key".to_string()).message(), "Agent error: no key");
    assert_eq!(SpiceError::Timeout(Duration::from_millis(1500)).message(), "Timeout after 1.5s");
    assert_eq!(SpiceError::AssertionFailed("x".to_string()).message(), "Assertion failed: x");
    assert_eq!(SpiceError::ConfigError("bad".to_string()).message(), "Configuration error: bad");
}

#[test]
fn messages_of_wrapped_errors() {
    let io = std::io::Error::new(std::io::ErrorKind::Other, "disk full");
    assert_eq!(SpiceError::Io(io).message(), "IO error: disk full");
    let json = serde_json::from_str::<serde_json::Value>("{").unwrap_err();
    let text = json.to_string();
    assert_eq!(SpiceError::Json(json).message(), format!("JSON error: {}", text));
}

#[test]
fn from_outside_errors() {
    let e: SpiceError = std::io::Error::new(std::io::ErrorKind::NotFound, "gone").into();
    assert!(matches!(e, SpiceError::Io(_)));
    let j: SpiceError = serde_json::from_str::<serde_json::Value>("]").unwrap_err().into();
    assert!(matches!(j, SpiceError::Json(_)));
}

#[test]
fn timeout_message_uses_debug_form() {
    assert_eq!(timeout_message(&Duration::from_secs(60)), "Timeout after 60s");
    assert_eq!(timeout_message(&Duration::from_millis(250)), "Timeout after 250ms");
}

#[test]
fn message_showing_puts_text_after_prefix() {
    let io = SpiceError::Io(std::io::Error::new(std::io::ErrorKind::Other, "x"));
    assert_eq!(io.message_showing("disk full"), "IO error: disk full");
    let json = SpiceError::Json(serde_json::from_str::<serde_json::Value>("{").unwrap_err());
    assert_eq!(json.message_showing("bad"), "JSON error: bad");
    assert_eq!(SpiceError::AgentError("a".to_string()).message_showing("ignored"), "Agent error: a");
}
