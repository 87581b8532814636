use xilers::ActionNum;
use xilers::CLIENT_TIMEOUT;
use xilers::Config;
use xilers::ErrorHandler;
use xilers::ErrorType;
use xilers::FileNode;
use xilers::FileSystem;
use xilers::MongoDB;
use xilers::NotAbortError;
use xilers::TcpNetwork;
use xilers::Uid;
use xilers::WebSocket;
use xilers::WsAction;
use xilers::WsEvent;

#[test]
fn test_file_node_new_invalid() {
    let node = FileNode::new("invalid_path", true);
    assert!(node.is_none());
}

#[test]
fn root_node_for_an_existing_path() {
    let node = FileNode::new(".", true);
    assert!(node.is_some());
}

#[test]
fn non_root_node_is_always_built() {
    let node = FileNode::new("notes.txt", false).unwrap();
    assert_eq!(node.file_name, "notes.txt");
    assert!(node.children.is_empty());
}

#[test]
fn add_child_appends_in_order() {
    let mut root = FileNode::new("root", false).unwrap();
    root.add_child(FileNode::new("a", false).unwrap());
    root.add_child(FileNode::new("b", false).unwrap());
    assert_eq!(root.children.len(), 2);
    assert_eq!(root.children[0].file_name, "a");
    assert_eq!(root.children[1].file_name, "b");
}

#[test]
fn render_lists_the_tree_with_indentation() {
    let mut root = FileNode::new("shared", false).unwrap();
    root.add_child(FileNode::new("file1.txt", false).unwrap());
    let mut sub = FileNode::new("subdir", false).unwrap();
    sub.add_child(FileNode::new("file2.txt", false).unwrap());
    root.add_child(sub);
    let rendered = root.render("");
    assert_eq!(
        rendered,
        "    shared/\n        file1.txt\n        subdir/\n            file2.txt\n"
    );
}

#[test]
fn render_caps_children_at_seven_per_level() {
    let mut root = FileNode::new("busy", false).unwrap();
    for i in 0..9 {
        root.add_child(FileNode::new(&format!("f{}", i), false).unwrap());
    }
    let rendered = root.render("");
    assert!(rendered.contains("f6"));
    assert!(!rendered.contains("f7"));
    assert!(!rendered.contains("f8"));
}

#[test]
fn file_system_falls_back_to_the_os_default() {
    // "invalid_path" does not exist, so the root comes from the named
    // operating system; an unknown system has no default.
    let fs = FileSystem::new("invalid_path", "linux").unwrap();
    assert_eq!(fs.node.file_name, "/home");
    assert!(FileSystem::new("invalid_path", "plan9").is_none());
}

#[test]
fn heartbeat_and_timeout_drive_the_session() {
    let d = Uid::new(1);
    let g = Uid::new(2);
    let mut ws = WebSocket::new(d, g, 0);
    assert_eq!(ws.started(), WsAction::EmitConnect);
    assert_eq!(ws.hb_tick(CLIENT_TIMEOUT), WsAction::SendPing);
    assert_eq!(ws.hb_tick(CLIENT_TIMEOUT + 1), WsAction::StopSession);
    // Traffic refreshes the clock.
    assert_eq!(ws.handle(WsEvent::Pong, 8), WsAction::NoAction);
    assert_eq!(ws.hb_tick(CLIENT_TIMEOUT + 1), WsAction::SendPing);
}

#[test]
fn session_events_map_to_actions() {
    let mut ws = WebSocket::new(Uid::new(1), Uid::new(2), 0);
    assert_eq!(
        ws.handle(WsEvent::Ping(vec![1, 2]), 3),
        WsAction::Pong(vec![1, 2])
    );
    assert_eq!(
        ws.handle(WsEvent::Text("sync".to_string()), 3),
        WsAction::Relay("sync".to_string())
    );
    assert_eq!(
        ws.handle(WsEvent::Binary(vec![9]), 3),
        WsAction::EchoBinary(vec![9])
    );
    assert_eq!(ws.handle(WsEvent::Nop, 3), WsAction::NoAction);
    assert_eq!(ws.handle(WsEvent::Close, 3), WsAction::CloseSession);
    assert_eq!(ws.handle(WsEvent::Continuation, 3), WsAction::StopSession);
    assert_eq!(ws.handle(WsEvent::ProtocolError, 3), WsAction::StopSession);
}

#[test]
fn disconnect_is_emitted_exactly_once() {
    let mut ws = WebSocket::new(Uid::new(1), Uid::new(2), 0);
    assert_eq!(ws.stopping(), WsAction::EmitDisconnect);
    assert_eq!(ws.stopping(), WsAction::NoAction);
    assert_eq!(ws.stopping(), WsAction::NoAction);
}

#[test]
fn error_kinds_decide_abort_and_logging() {
    let abort = ErrorType::AbortError("db gone".to_string());
    assert!(abort.must_abort());
    assert!(abort.writes_log());
    let minor = ErrorType::NotAbortError(NotAbortError::Minor("retry".to_string()));
    assert!(!minor.must_abort());
    assert!(!minor.writes_log());
    let severe = ErrorType::NotAbortError(NotAbortError::Severe("bad read".to_string()));
    assert!(!severe.must_abort());
    assert!(severe.writes_log());
    assert_eq!(severe.message().as_str(), "bad read");
}

#[test]
fn error_log_names_carry_the_padded_date() {
    assert_eq!(
        ErrorHandler::error_log_file_name(2024, 3, 7),
        "2024-03-07_error.txt"
    );
    let handler = ErrorHandler::new("log".to_string());
    assert_eq!(
        handler.error_log_path(2024, 12, 31),
        "log/2024-12-31_error.txt"
    );
}

#[test]
fn menu_actions_round_trip() {
    let actions = ActionNum::iter();
    assert_eq!(actions.len(), 4);
    for action in actions {
        assert_eq!(ActionNum::from_num(action.num()), action);
    }
    assert_eq!(ActionNum::from_num(99), ActionNum::Undefined);
    assert_eq!(ActionNum::DeviceList.label(), "DeviceList");
    assert_eq!(ActionNum::Exit.label(), "Exit");
}

#[test]
fn fallback_config_and_addresses() {
    let config = Config::fallback();
    assert_eq!(config.server.master_ip, "http://127.0.0.1");
    assert_eq!(config.server.master_port, 8080);
    assert_eq!(config.client.file_storage, "/tmp");
    assert_eq!(config.client.listen_port, 8081);
    assert_eq!(config.master_addr(), "http://127.0.0.1:8080");
}

#[test]
fn network_endpoint_addresses() {
    let network = TcpNetwork::new(8081, "/tmp".to_string());
    assert_eq!(network.bind_addr(), "0.0.0.0:8081");
    assert_eq!(network.storage_path("a.yaml"), "/tmp/a.yaml");
    assert_eq!(TcpNetwork::new(0, String::new()).bind_addr(), "0.0.0.0:0");
}

#[test]
fn mongodb_connection_uri() {
    let db = MongoDB::new("127.0.0.1".to_string(), 27017);
    assert_eq!(db.connection_uri(), "mongodb://127.0.0.1:27017");
}
