use ipams_client::transfer::message::{Message, Notice};
use ipams_client::ws_server::{
    dispatch_connection, handle_http_ping, handle_ws, welcome, Service, SocketAction, SocketEvent,
};

#[test]
fn sockets_are_told_apart() {
    for spelling in ["Upgrade: websocket", "Upgrade: Websocket", "upgrade: websocket"] {
        let request = format!("GET /ws HTTP/1.1\r\n{}\r\n\r\n", spelling);
        assert!(matches!(dispatch_connection(request.as_bytes()), Service::Socket));
    }
    match dispatch_connection(b"GET /ping HTTP/1.1\r\nUPGRADE: websocket\r\n") {
        Service::Http(h) => assert_eq!(h, "GET /ping HTTP/1.1\r\nUPGRADE: websocket\r\n"),
        Service::Socket => panic!("a socket"),
    }
    // bytes that are no text count as nothing
    match dispatch_connection(b"Upgrade: websocket\xff") {
        Service::Http(h) => assert_eq!(h, ""),
        Service::Socket => panic!("a socket"),
    }
}

#[test]
fn ping_is_answered() {
    assert_eq!(
        handle_http_ping("GET /ping HTTP/1.1\r\nHost: x\r\n\r\n"),
        "HTTP/1.1 200 OK\r\nContent-Type: application/json\r\nAccess-Control-Allow-Origin: *\r\nContent-Length: 40\r\nConnection: close\r\n\r\n{\"status\":\"ok\",\"service\":\"ipams-client\"}"
    );
}

#[test]
fn everything_else_is_not_found() {
    let lost = "HTTP/1.1 404 Not Found\r\nContent-Type: application/json\r\nAccess-Control-Allow-Origin: *\r\nContent-Length: 21\r\nConnection: close\r\n\r\n{\"error\":\"not found\"}";
    for request in ["", "GET", "GET /pingx HTTP/1.1", "\r\nGET /ping HTTP/1.1", "GET /ping/ x", "/ping GET"] {
        assert_eq!(handle_http_ping(request), lost, "{}", request);
    }
    assert_ne!(handle_http_ping("GET\u{3000}\t/ping"), lost);
    assert_ne!(handle_http_ping("  POST   /ping"), lost);
}

#[test]
fn socket_turns() {
    assert!(matches!(handle_ws(SocketEvent::Broadcast("m".to_string())), SocketAction::Send(t) if t == "m"));
    assert!(matches!(handle_ws(SocketEvent::Ping(vec![1, 2])), SocketAction::Pong(d) if d == vec![1, 2]));
    assert!(matches!(handle_ws(SocketEvent::Lagged), SocketAction::Wait));
    assert!(matches!(handle_ws(SocketEvent::Other), SocketAction::Wait));
    assert!(matches!(handle_ws(SocketEvent::Closed), SocketAction::Stop));
    assert!(matches!(handle_ws(SocketEvent::Gone), SocketAction::Stop));
    assert!(matches!(handle_ws(SocketEvent::Failed), SocketAction::Stop));
}

#[test]
fn clients_are_numbered() {
    let mut counter: u64 = 0;
    assert_eq!(welcome(&mut counter).0, 0);
    let (id, message) = welcome(&mut counter);
    assert_eq!(id, 1);
    assert_eq!(message.text(), "{\"client_id\":1,\"service\":\"ipams-client\",\"type\":\"connected\"}");
    counter = u64::MAX;
    assert_eq!(welcome(&mut counter).0, u64::MAX);
    assert_eq!(counter, 0);
}

#[test]
fn messages_as_text() {
    let id = || "i".to_string();
    let name = || "n".to_string();
    let cases: Vec<(Message<String>, &str)> = vec![
        (Message::QueueCleared, "{\"type\":\"queue_cleared\"}"),
        (Message::TaskCancelled { upload_id: id() }, "{\"type\":\"task_cancelled\",\"upload_id\":\"i\"}"),
        (Message::Paused { upload_id: id() }, "{\"type\":\"paused\",\"upload_id\":\"i\"}"),
        (Message::Resumed { upload_id: id() }, "{\"type\":\"resumed\",\"upload_id\":\"i\"}"),
        (
            Message::UploadStart { upload_id: id(), filename: name(), total_chunks: 3 },
            "{\"filename\":\"n\",\"total_chunks\":3,\"type\":\"upload_start\",\"upload_id\":\"i\"}",
        ),
        (
            Message::UploadQueued { upload_id: id(), filename: name(), total_chunks: 3 },
            "{\"filename\":\"n\",\"total_chunks\":3,\"type\":\"upload_queued\",\"upload_id\":\"i\"}",
        ),
        (
            Message::UploadInstant { upload_id: id(), filename: name(), file_size: 9 },
            "{\"file_size\":9,\"filename\":\"n\",\"type\":\"upload_instant\",\"upload_id\":\"i\"}",
        ),
        (
            Message::UploadHashing { filename: name(), file_size: 9 },
            "{\"file_size\":9,\"filename\":\"n\",\"type\":\"upload_hashing\"}",
        ),
        (Message::Completed { upload_id: id() }, "{\"type\":\"completed\",\"upload_id\":\"i\"}"),
        (
            Message::Finished { upload_id: id() },
            "{\"status\":\"completed\",\"type\":\"completed\",\"upload_id\":\"i\"}",
        ),
        (
            Message::Retrying { upload_id: id(), retry_count: 2 },
            "{\"retry_count\":2,\"status\":\"running\",\"type\":\"task_status\",\"upload_id\":\"i\"}",
        ),
        (
            Message::TaskReinit { old_upload_id: id(), new_upload_id: "j".to_string() },
            "{\"new_upload_id\":\"j\",\"old_upload_id\":\"i\",\"type\":\"task_reinit\"}",
        ),
        (Message::AllPaused, "{\"type\":\"all_paused\"}"),
        (Message::AllResumed, "{\"type\":\"all_resumed\"}"),
        (Message::AllUploadsComplete, "{\"type\":\"all_uploads_complete\"}"),
    ];
    for (message, text) in cases {
        assert_eq!(message.text(), text);
    }
    let progress = Message::Progress { upload_id: id(), uploaded_chunks: 1, total_chunks: 2 };
    assert_eq!(
        serde_json::Value::Object(progress.object()).to_string(),
        "{\"total_chunks\":2,\"type\":\"progress\",\"upload_id\":\"i\",\"uploaded_chunks\":1}"
    );
}

#[test]
fn notices_to_the_window() {
    let n = Notice::Started { upload_id: "i".to_string(), filename: "n".to_string(), file_size: 9 };
    assert_eq!(n.name(), "upload:started");
    assert_eq!(
        serde_json::Value::Object(n.object()).to_string(),
        "{\"file_size\":9,\"filename\":\"n\",\"upload_id\":\"i\"}"
    );
    let n = Notice::SelectFile { upload_id: "i".to_string(), filename: "n".to_string(), file_size: 9 };
    assert_eq!(n.name(), "upload:select-file");
    assert_eq!(n.object().len(), 3);
    let n = Notice::Instant { filename: "n".to_string(), file_size: 9 };
    assert_eq!(n.name(), "upload:instant");
    assert_eq!(n.object().len(), 2);
    assert_eq!(Notice::TokenSaved { token: "t".to_string() }.name(), "auth:token-saved");
    assert_eq!(Notice::<String>::UserMismatch.name(), "upload:user-mismatch");
    assert_eq!(Notice::<String>::UserMismatch.object().len(), 0);
}
