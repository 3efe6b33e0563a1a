use fables::error::AppError;
use fables::lifecycle::{step, ControlFlow, LifecycleState, LoopEvent};

#[test]
fn init_starts_running_and_announces() {
    let s = step(LifecycleState::Created, LoopEvent::Init);
    assert_eq!(s.state, LifecycleState::Running);
    assert_eq!(s.control, ControlFlow::Wait);
    assert!(s.announce_start);
}

#[test]
fn other_events_wait() {
    let s = step(LifecycleState::Running, LoopEvent::Other);
    assert_eq!(s.state, LifecycleState::Running);
    assert_eq!(s.control, ControlFlow::Wait);
    assert!(!s.announce_start);
}

#[test]
fn close_request_exits_and_nothing_follows() {
    let s = step(LifecycleState::Running, LoopEvent::CloseRequested);
    assert_eq!(s.state, LifecycleState::Closing);
    assert_eq!(s.control, ControlFlow::Exit);
    let mut state = s.state;
    for e in [LoopEvent::Init, LoopEvent::Other, LoopEvent::CloseRequested] {
        let n = step(state, e);
        assert_eq!(n.state, LifecycleState::Terminated);
        assert_eq!(n.control, ControlFlow::Exit);
        assert!(!n.announce_start);
        state = n.state;
    }
}

#[test]
fn error_messages() {
    assert_eq!(AppError::WebViewCreation.message(), "WebView creation failed");
    assert_eq!(AppError::UrlSetting("app://local/play.htm".to_string()).message(), "URL setting failed: app://local/play.htm");
    assert_eq!(AppError::Wry("boom".to_string()).message(), "Wry error: boom");
    assert_eq!(AppError::OsError("denied".to_string()).message(), "OS error: denied");
}
