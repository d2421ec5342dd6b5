// The client protocol boundary and the session fan-out.

use file_search::errors::AppError;
use file_search::protocol::{
    classify_client_message, clone_message, decode_client_message, WebSocketMessage,
};
use file_search::sessions::SessionBroadcaster;
use file_search::types::{IndexStats, SearchQuery};

#[test]
fn valid_search_frame_decodes() {
    let r = decode_client_message(r#"{"type":"search","text":"hello","limit":5}"#);
    match r {
        Ok(WebSocketMessage::Search(q)) => {
            assert_eq!(q.text, "hello");
            assert_eq!(q.limit, Some(5));
        },
        other => panic!("expected a search message, got {:?}", other.is_ok()),
    }
}

#[test]
fn search_frame_without_limit_decodes() {
    let r = decode_client_message(r#"{"type":"search","text":"hi"}"#);
    match r {
        Ok(WebSocketMessage::Search(q)) => {
            assert_eq!(q.text, "hi");
            assert_eq!(q.limit, None);
        },
        _ => panic!("expected a search message"),
    }
}

#[test]
fn index_and_remove_folder_frames_decode() {
    match decode_client_message(r#"{"type":"indexFolder","path":"/docs"}"#) {
        Ok(WebSocketMessage::IndexFolder { path }) => assert_eq!(path, "/docs"),
        _ => panic!("expected an indexFolder message"),
    }
    match decode_client_message(r#"{"type":"removeFolder","path":"/docs"}"#) {
        Ok(WebSocketMessage::RemoveFolder { path }) => assert_eq!(path, "/docs"),
        _ => panic!("expected a removeFolder message"),
    }
}

#[test]
fn invalid_json_is_malformed_not_fatal() {
    let r = decode_client_message("{not json");
    assert!(matches!(r, Err(AppError::MalformedClientMessage(_))));
}

#[test]
fn unknown_tag_is_malformed() {
    let r = decode_client_message(r#"{"type":"shutdown"}"#);
    match r {
        Err(AppError::MalformedClientMessage(m)) => assert_eq!(m, "shutdown"),
        _ => panic!("expected a malformed message error"),
    }
}

#[test]
fn missing_required_fields_are_malformed() {
    assert!(matches!(
        decode_client_message(r#"{"type":"search"}"#),
        Err(AppError::MalformedClientMessage(_))
    ));
    assert!(matches!(
        decode_client_message(r#"{"type":"indexFolder"}"#),
        Err(AppError::MalformedClientMessage(_))
    ));
    assert!(matches!(
        decode_client_message(r#"{"type":"removeFolder","path":7}"#),
        Err(AppError::MalformedClientMessage(_))
    ));
}

#[test]
fn missing_tag_and_non_object_frames_are_malformed() {
    assert!(matches!(
        decode_client_message(r#"{"text":"x"}"#),
        Err(AppError::MalformedClientMessage(_))
    ));
    assert!(matches!(
        decode_client_message(r#"[1,2,3]"#),
        Err(AppError::MalformedClientMessage(_))
    ));
    assert!(matches!(
        decode_client_message(r#""just a string""#),
        Err(AppError::MalformedClientMessage(_))
    ));
}

#[test]
fn server_tags_from_a_client_are_malformed() {
    assert!(matches!(
        decode_client_message(r#"{"type":"error","message":"x"}"#),
        Err(AppError::MalformedClientMessage(_))
    ));
}

#[test]
fn classify_builds_the_tagged_union() {
    let r = classify_client_message(
        &"search".to_string(),
        Some("q".to_string()),
        Some(3),
        None,
    );
    assert!(matches!(r, Ok(WebSocketMessage::Search(SearchQuery { .. }))));
    let r = classify_client_message(&"indexFolder".to_string(), None, None, None);
    assert!(matches!(r, Err(AppError::MalformedClientMessage(_))));
    let r = classify_client_message(&"noSuchTag".to_string(), None, None, None);
    assert!(matches!(r, Err(AppError::MalformedClientMessage(m)) if m == "noSuchTag"));
}

#[test]
fn error_messages_name_their_cause() {
    let e = AppError::UnsupportedFileType("bin".to_string());
    assert_eq!(e.message(), "file type not supported: bin");
    let e = AppError::ExtractionFailed("short read".to_string());
    assert_eq!(e.message(), "extraction failed: short read");
    let e = AppError::EmbeddingTimeout;
    assert_eq!(e.message(), "embedding timed out");
    let e = AppError::EmbeddingModelError("rc 1".to_string());
    assert_eq!(e.message(), "embedding model error: rc 1");
    let e = AppError::VectorStoreUnavailable("down".to_string());
    assert_eq!(e.message(), "vector store unavailable: down");
    let e = AppError::WatchSetupFailed("denied".to_string());
    assert_eq!(e.message(), "watch setup failed: denied");
    let e = AppError::MalformedClientMessage("tag".to_string());
    assert_eq!(e.message(), "malformed client message: tag");
    let e = AppError::ProtocolTransportError("reset".to_string());
    assert_eq!(e.message(), "transport error: reset");
    let e = AppError::Other("misc".to_string());
    assert_eq!(e.message(), "misc");
}

fn progress_event() -> WebSocketMessage {
    WebSocketMessage::IndexingProgress {
        stats: IndexStats {
            total_files: 2,
            indexed_files: 1,
            failed_files: 0,
            total_chunks: 0,
            index_size_bytes: 0,
        },
    }
}

#[test]
fn every_session_receives_the_same_progress_event() {
    let mut b = SessionBroadcaster::new();
    assert!(b.connect(1, 8));
    assert!(b.connect(2, 8));
    b.publish(&progress_event());
    assert_eq!(b.sessions.len(), 2);
    for s in &b.sessions {
        assert_eq!(s.queue.len(), 1);
        match &s.queue[0] {
            WebSocketMessage::IndexingProgress { stats } => {
                assert_eq!(stats.total_files, 2);
                assert_eq!(stats.indexed_files, 1);
                assert_eq!(stats.failed_files, 0);
            },
            _ => panic!("expected a progress event"),
        }
    }
}

#[test]
fn connecting_twice_changes_nothing() {
    let mut b = SessionBroadcaster::new();
    assert!(b.connect(1, 4));
    assert!(!b.connect(1, 4));
    assert_eq!(b.sessions.len(), 1);
}

#[test]
fn a_full_queue_drops_its_oldest_event() {
    let mut b = SessionBroadcaster::new();
    b.connect(1, 2);
    b.publish(&WebSocketMessage::Error { message: "first".to_string() });
    b.publish(&WebSocketMessage::Error { message: "second".to_string() });
    b.publish(&WebSocketMessage::Error { message: "third".to_string() });
    let q = &b.sessions[0].queue;
    assert_eq!(q.len(), 2);
    assert!(matches!(&q[0], WebSocketMessage::Error { message } if message.as_str() == "second"));
    assert!(matches!(&q[1], WebSocketMessage::Error { message } if message.as_str() == "third"));
}

#[test]
fn a_slow_session_does_not_block_its_peers() {
    let mut b = SessionBroadcaster::new();
    b.connect(1, 1);
    b.connect(2, 10);
    b.publish(&WebSocketMessage::Error { message: "one".to_string() });
    b.publish(&WebSocketMessage::Error { message: "two".to_string() });
    assert_eq!(b.sessions[0].queue.len(), 1);
    assert_eq!(b.sessions[1].queue.len(), 2);
}

#[test]
fn disconnect_removes_only_that_session() {
    let mut b = SessionBroadcaster::new();
    b.connect(1, 4);
    b.connect(2, 4);
    assert!(b.disconnect(1));
    assert!(!b.disconnect(1));
    assert_eq!(b.sessions.len(), 1);
    assert_eq!(b.sessions[0].id, 2);
}

#[test]
fn cloned_messages_carry_the_same_content() {
    let m = WebSocketMessage::FolderRemoved { path: "/docs".to_string() };
    match clone_message(&m) {
        WebSocketMessage::FolderRemoved { path } => assert_eq!(path, "/docs"),
        _ => panic!("clone changed the variant"),
    }
    let m = WebSocketMessage::Search(SearchQuery { text: "q".to_string(), limit: Some(2) });
    match clone_message(&m) {
        WebSocketMessage::Search(q) => {
            assert_eq!(q.text, "q");
            assert_eq!(q.limit, Some(2));
        },
        _ => panic!("clone changed the variant"),
    }
}
