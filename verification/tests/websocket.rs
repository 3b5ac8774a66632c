use forge_gateway::request_monitor::{RequestCounters, RequestLogBook};
use forge_gateway::token_manager::TokenManager;
use forge_gateway::websocket::{echo_reply, heartbeat_timed_out, websocket_allowed_at, TerminalCommand};

#[test]
fn command_line_and_replies() {
    let cmd = TerminalCommand {
        command: "ls".to_string(),
        args: vec!["-la".to_string(), "/tmp".to_string()],
        working_dir: None,
    };
    assert_eq!(cmd.command_line(), "ls -la /tmp");
    assert_eq!(
        cmd.replies(),
        vec![
            "stdout:Executing: ls -la /tmp\n".to_string(),
            "stdout:Command 'ls' completed successfully\n".to_string(),
            "exit:0".to_string(),
        ]
    );
    let bare = TerminalCommand { command: "pwd".to_string(), args: vec![], working_dir: None };
    assert_eq!(bare.command_line(), "pwd");
    assert_eq!(echo_reply("hi"), "echo:hi");
}

#[test]
fn heartbeat() {
    assert!(!heartbeat_timed_out(1_000, 61_000));
    assert!(heartbeat_timed_out(1_000, 61_001));
    assert!(!heartbeat_timed_out(5_000, 1_000));
}

#[test]
fn websocket_authentication() {
    let mut manager = TokenManager::new("http://localhost:8081".to_string());
    manager.generate_token_with(None, vec![], 1_000, 0xab).unwrap();
    let text = "00000000-0000-0000-0000-0000000000ab";
    let header = format!("Bearer {}", text);
    assert!(websocket_allowed_at(&manager, Some(header.as_str()), None, 2_000));
    let query = format!("x=1&token={}", text);
    assert!(websocket_allowed_at(&manager, Some("Bearer nope"), Some(query.as_str()), 2_000));
    assert!(!websocket_allowed_at(&manager, None, Some("token=&token=x"), 2_000));
    assert!(!websocket_allowed_at(&manager, None, None, 2_000));
    assert!(!websocket_allowed_at(&manager, Some(header.as_str()), None, 1_000 + 3_600_001));
}

#[test]
fn request_log_keeps_the_newest() {
    let mut book = RequestLogBook::new();
    for i in 0..1005u64 {
        book.record_success(i as u128, "/api", i, "1.2.3.4");
    }
    let recent = book.get_request_logs(3);
    assert_eq!(recent.len(), 3);
    assert_eq!(recent[0].duration_ms, 1004);
    assert_eq!(recent[2].duration_ms, 1002);
    assert_eq!(book.get_request_logs(5000).len(), 1000);
    book.record_failure(2_000, "/api", "1.2.3.4");
    let all = book.get_request_logs(5000);
    assert_eq!(all.len(), 1001);
    assert_eq!(all[0].status_code, 500);
    assert_eq!(all[0].method, "GET");
}

#[test]
fn request_counters() {
    let mut counters = RequestCounters::new();
    counters.record_success();
    counters.record_failure("boom");
    counters.update_connections(3);
    assert_eq!(counters.total_requests, 2);
    assert_eq!(counters.successful_requests, 1);
    assert_eq!(counters.failed_requests, 1);
    assert_eq!(counters.active_connections, 3);
    assert_eq!(counters.last_error, Some("boom".to_string()));
}

use forge_gateway::request_monitor::WebSocketMonitor;
use forge_gateway::websocket::{handle_event, SocketAction, SocketEvent};

#[test]
fn socket_events() {
    match handle_event(SocketEvent::Ping(vec![1, 2]), 5, 9) {
        (SocketAction::Pong(p), beat) => {
            assert_eq!(p, vec![1, 2]);
            assert_eq!(beat, 9);
        }
        _ => panic!("a ping is answered with a pong"),
    }
    match handle_event(SocketEvent::Text("hello".to_string()), 5, 9) {
        (SocketAction::Send(m), beat) => {
            assert_eq!(m, vec!["echo:hello".to_string()]);
            assert_eq!(beat, 5);
        }
        _ => panic!("text is echoed"),
    }
    let cmd = TerminalCommand { command: "ls".to_string(), args: vec![], working_dir: None };
    match handle_event(SocketEvent::Command(cmd), 5, 9) {
        (SocketAction::Send(m), _) => assert_eq!(m[2], "exit:0"),
        _ => panic!("a command is run"),
    }
    assert!(matches!(handle_event(SocketEvent::Close, 5, 9), (SocketAction::Close, 5)));
    assert!(matches!(handle_event(SocketEvent::Pong, 5, 9), (SocketAction::Nothing, 9)));
}

#[test]
fn connection_monitor() {
    let mut monitor = WebSocketMonitor::new();
    assert_eq!(monitor.connection_opened_at("ws_conn_1", 1), 1);
    assert_eq!(monitor.connection_opened_at("ws_conn_2", 2), 2);
    assert_eq!(monitor.connection_opened_at("ws_conn_3", 3), 3);
    assert_eq!(monitor.connection_opened_at("ws_conn_3", 4), 3);
    assert_eq!(monitor.connection_closed("ws_conn_2"), 2);
    assert_eq!(monitor.connection_closed("nope"), 2);
    assert_eq!(monitor.get_connection_count(), 2);
}

#[test]
fn performance_counts() {
    let mut counters = RequestCounters::new();
    counters.record_performance(200);
    counters.record_performance(500);
    counters.record_performance(399);
    assert_eq!(counters.total_requests, 3);
    assert_eq!(counters.successful_requests, 2);
    assert_eq!(counters.failed_requests, 1);
}
