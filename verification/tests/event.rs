use std::time::Duration;
use tenex::event::Handler;

#[test]
fn test_event_handler_new() {
    let handler = Handler::new(50);
    assert_eq!(handler.tick_rate(), Duration::from_millis(50));
}

#[test]
fn test_event_handler_default() {
    let handler = Handler::default();
    assert_eq!(handler.tick_rate(), Duration::from_millis(100));
}

#[test]
fn test_handler_debug() {
    let handler = Handler::new(50);
    assert!(!format!("{handler:?}").is_empty());
}

#[test]
fn test_handler_clone() {
    let handler = Handler::new(75);
    let cloned = handler;
    assert_eq!(cloned.tick_rate(), Duration::from_millis(75));
}

#[test]
fn handler_tick_rate_zero_is_zero_duration() {
    let handler = Handler::new(0);
    assert_eq!(handler.tick_rate(), Duration::ZERO);
}
