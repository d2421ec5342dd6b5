//! The client protocol: the message set, validation of incoming frames,
//! and the mapping of unknown or incomplete messages to a malformed
//! error that never closes the connection.
//!
//! Frames arrive as JSON text. Parsing the raw text is done through
//! serde_json behind trusted wrappers; everything from the parsed
//! fields onward — which tags exist, which fields each requires, what a
//! bad frame maps to — is verified logic.

use vstd::prelude::*;

use crate::errors::AppError;
use crate::types::{IndexStats, SearchHit, SearchQuery, SearchResult};

verus! {

/// The string field under `key` of the JSON object that `frame` parses
/// to, if `frame` is valid JSON, an object, holds `key`, and the value
/// there is a JSON string; `None` otherwise. A function of the two
/// texts alone: serde_json's parsing is deterministic.
pub uninterp spec fn spec_frame_str_field(frame: Seq<char>, key: Seq<char>) -> Option<Seq<char>>;

/// The u64 field under `key` of the JSON object that `frame` parses
/// to, under the same conditions; `None` otherwise. A function of the
/// two texts alone.
pub uninterp spec fn spec_frame_u64_field(frame: Seq<char>, key: Seq<char>) -> Option<u64>;

/// Relies on serde_json's `from_str::<Value>`, `Value::get` and
/// `Value::as_str`: parses the frame and reads the string field under
/// `key`. Each step returns `None` rather than panicking on bad input
/// (the parser's default recursion limit errors out), and the chain's
/// result depends on the two texts alone.
#[verifier::external_body]
fn frame_str_field(frame: &str, key: &str) -> (r: Option<String>)
    ensures
        match r {
            Some(s) => spec_frame_str_field(frame@, key@) == Some(s@),
            None => spec_frame_str_field(frame@, key@) is None,
        },
{
    match serde_json::from_str::<serde_json::Value>(frame) {
        Ok(v) => match v.get(key) {
            Some(f) => match f.as_str() {
                Some(s) => Some(s.to_string()),
                None => None,
            },
            None => None,
        },
        Err(_) => None,
    }
}

/// Relies on serde_json's `from_str::<Value>`, `Value::get` and
/// `Value::as_u64`: parses the frame and reads the u64 field under
/// `key`. No step panics, and the chain's result depends on the two
/// texts alone.
#[verifier::external_body]
fn frame_u64_field(frame: &str, key: &str) -> (r: Option<u64>)
    ensures
        match r {
            Some(n) => spec_frame_u64_field(frame@, key@) == Some(n),
            None => spec_frame_u64_field(frame@, key@) is None,
        },
{
    match serde_json::from_str::<serde_json::Value>(frame) {
        Ok(v) => match v.get(key) {
            Some(f) => f.as_u64(),
            None => None,
        },
        Err(_) => None,
    }
}

/// Every message that crosses a session, client to server or server to
/// client.
pub enum WebSocketMessage {
    /// Client: run a search.
    Search(SearchQuery),
    /// Client: index a folder and watch it.
    IndexFolder { path: String },
    /// Client: stop watching a folder.
    RemoveFolder { path: String },
    /// Server: the reply to one search.
    SearchResult(SearchResult),
    /// Server: aggregate progress of a batch.
    IndexingProgress { stats: IndexStats },
    /// Server: a folder was removed.
    FolderRemoved { path: String },
    /// Server: an error report.
    Error { message: String },
}

/// Message equivalence: equality everywhere, with a search result
/// compared by its contents.
pub open spec fn msg_eq(a: WebSocketMessage, b: WebSocketMessage) -> bool {
    match (a, b) {
        (WebSocketMessage::SearchResult(r1), WebSocketMessage::SearchResult(r2)) => {
            &&& r1.files@ == r2.files@
            &&& r1.total == r2.total
            &&& r1.query_time_ms == r2.query_time_ms
        },
        _ => a == b,
    }
}

/// A copy of one search hit, field for field.
fn clone_hit(h: &SearchHit) -> (r: SearchHit)
    ensures
        r == *h,
{
    SearchHit {
        id: h.id,
        name: h.name.clone(),
        path: h.path.clone(),
        file_type: h.file_type.clone(),
        summary: h.summary.clone(),
        modified: h.modified,
        score_milli: h.score_milli,
    }
}

/// A copy of a message, equivalent to the original, for fan-out to
/// several sessions.
pub fn clone_message(m: &WebSocketMessage) -> (r: WebSocketMessage)
    ensures
        msg_eq(r, *m),
{
    match m {
        WebSocketMessage::Search(q) => WebSocketMessage::Search(
            SearchQuery { text: q.text.clone(), limit: q.limit },
        ),
        WebSocketMessage::IndexFolder { path } => WebSocketMessage::IndexFolder {
            path: path.clone(),
        },
        WebSocketMessage::RemoveFolder { path } => WebSocketMessage::RemoveFolder {
            path: path.clone(),
        },
        WebSocketMessage::SearchResult(res) => {
            let n = res.files.len();
            let mut files: Vec<SearchHit> = Vec::new();
            let mut i: usize = 0;
            while i < n
                invariant
                    i <= n,
                    n == res.files@.len(),
                    files@ =~= res.files@.subrange(0, i as int),
                decreases n - i,
            {
                files.push(clone_hit(&res.files[i]));
                proof {
                    assert(files@ =~= res.files@.subrange(0, i + 1));
                }
                i = i + 1;
            }
            proof {
                assert(res.files@.subrange(0, n as int) =~= res.files@);
            }
            WebSocketMessage::SearchResult(
                SearchResult { files, total: res.total, query_time_ms: res.query_time_ms },
            )
        },
        WebSocketMessage::IndexingProgress { stats } => WebSocketMessage::IndexingProgress {
            stats: *stats,
        },
        WebSocketMessage::FolderRemoved { path } => WebSocketMessage::FolderRemoved {
            path: path.clone(),
        },
        WebSocketMessage::Error { message } => WebSocketMessage::Error {
            message: message.clone(),
        },
    }
}

/// The limit field, converted from the wire's u64 to a count.
pub open spec fn spec_limit_conv(limit: Option<u64>) -> Option<usize> {
    match limit {
        None => None,
        Some(v) => Some(
            if v > usize::MAX as u64 {
                usize::MAX
            } else {
                v as usize
            },
        ),
    }
}

/// Whether this tag names a message a client may send.
pub open spec fn spec_is_client_tag(tag: Seq<char>) -> bool {
    tag == "search"@ || tag == "indexFolder"@ || tag == "removeFolder"@
}

/// Builds the client message a frame's fields describe. A known tag
/// with its required field present yields that message; a known tag
/// missing its required field, or an unknown tag, yields a malformed
/// message error — never a crash, never a closed connection.
pub fn classify_client_message(
    tag: &String,
    text: Option<String>,
    limit: Option<u64>,
    path: Option<String>,
) -> (r: Result<WebSocketMessage, AppError>)
    ensures
        tag@ == "search"@ && text is Some ==> r == Ok::<WebSocketMessage, AppError>(
            WebSocketMessage::Search(
                SearchQuery { text: text->Some_0, limit: spec_limit_conv(limit) },
            ),
        ),
        tag@ == "indexFolder"@ && path is Some ==> r == Ok::<WebSocketMessage, AppError>(
            WebSocketMessage::IndexFolder { path: path->Some_0 },
        ),
        tag@ == "removeFolder"@ && path is Some ==> r == Ok::<WebSocketMessage, AppError>(
            WebSocketMessage::RemoveFolder { path: path->Some_0 },
        ),
        tag@ == "search"@ && text is None ==> r matches Err(AppError::MalformedClientMessage(_)),
        (tag@ == "indexFolder"@ || tag@ == "removeFolder"@) && path is None ==> r matches Err(
            AppError::MalformedClientMessage(_),
        ),
        !spec_is_client_tag(tag@) ==> (r matches Err(AppError::MalformedClientMessage(m)) && m@
            == tag@),
        match r {
            Ok(m) => m is Search || m is IndexFolder || m is RemoveFolder,
            Err(e) => e is MalformedClientMessage,
        },
{
    proof {
        reveal_strlit("search");
        reveal_strlit("indexFolder");
        reveal_strlit("removeFolder");
        assert("search"@.len() == 6);
        assert("indexFolder"@.len() == 11);
        assert("removeFolder"@.len() == 12);
    }
    if *tag == String::from_str("search") {
        match text {
            Some(t) => {
                let lim: Option<usize> = match limit {
                    None => None,
                    Some(v) => {
                        if v > usize::MAX as u64 {
                            Some(usize::MAX)
                        } else {
                            Some(v as usize)
                        }
                    },
                };
                Ok(WebSocketMessage::Search(SearchQuery { text: t, limit: lim }))
            },
            None => Err(
                AppError::MalformedClientMessage(String::from_str("search needs a text field")),
            ),
        }
    } else if *tag == String::from_str("indexFolder") {
        match path {
            Some(p) => Ok(WebSocketMessage::IndexFolder { path: p }),
            None => Err(
                AppError::MalformedClientMessage(
                    String::from_str("indexFolder needs a path field"),
                ),
            ),
        }
    } else if *tag == String::from_str("removeFolder") {
        match path {
            Some(p) => Ok(WebSocketMessage::RemoveFolder { path: p }),
            None => Err(
                AppError::MalformedClientMessage(
                    String::from_str("removeFolder needs a path field"),
                ),
            ),
        }
    } else {
        Err(AppError::MalformedClientMessage(tag.clone()))
    }
}

/// Decodes one incoming text frame. Valid frames with a known client
/// tag and its fields become that message; everything else — invalid
/// JSON, a missing tag, an unknown tag, a missing required field —
/// becomes a malformed message error for the originating session only.
/// The contract ties the result to the frame's named fields: a
/// well-formed client frame yields its message, never an error.
pub fn decode_client_message(frame: &str) -> (r: Result<WebSocketMessage, AppError>)
    ensures
        spec_frame_str_field(frame@, "type"@) is None ==> r matches Err(
            AppError::MalformedClientMessage(_),
        ),
        spec_frame_str_field(frame@, "type"@) == Some("search"@) && spec_frame_str_field(
            frame@,
            "text"@,
        ) is Some ==> (r matches Ok(WebSocketMessage::Search(q)) && q.text@
            == spec_frame_str_field(frame@, "text"@)->Some_0 && q.limit == spec_limit_conv(
            spec_frame_u64_field(frame@, "limit"@),
        )),
        spec_frame_str_field(frame@, "type"@) == Some("search"@) && spec_frame_str_field(
            frame@,
            "text"@,
        ) is None ==> r matches Err(AppError::MalformedClientMessage(_)),
        spec_frame_str_field(frame@, "type"@) == Some("indexFolder"@) && spec_frame_str_field(
            frame@,
            "path"@,
        ) is Some ==> (r matches Ok(WebSocketMessage::IndexFolder { path: p }) && p@
            == spec_frame_str_field(frame@, "path"@)->Some_0),
        spec_frame_str_field(frame@, "type"@) == Some("removeFolder"@) && spec_frame_str_field(
            frame@,
            "path"@,
        ) is Some ==> (r matches Ok(WebSocketMessage::RemoveFolder { path: p }) && p@
            == spec_frame_str_field(frame@, "path"@)->Some_0),
        (spec_frame_str_field(frame@, "type"@) == Some("indexFolder"@) || spec_frame_str_field(
            frame@,
            "type"@,
        ) == Some("removeFolder"@)) && spec_frame_str_field(frame@, "path"@) is None ==> r matches
            Err(AppError::MalformedClientMessage(_)),
        spec_frame_str_field(frame@, "type"@) is Some && !spec_is_client_tag(
            spec_frame_str_field(frame@, "type"@)->Some_0,
        ) ==> (r matches Err(AppError::MalformedClientMessage(m)) && m@ == spec_frame_str_field(
            frame@,
            "type"@,
        )->Some_0),
        match r {
            Ok(m) => m is Search || m is IndexFolder || m is RemoveFolder,
            Err(e) => e is MalformedClientMessage,
        },
{
    match frame_str_field(frame, "type") {
        None => Err(AppError::MalformedClientMessage(String::from_str("missing type tag"))),
        Some(tag) => {
            let text = frame_str_field(frame, "text");
            let limit = frame_u64_field(frame, "limit");
            let path = frame_str_field(frame, "path");
            classify_client_message(&tag, text, limit, path)
        },
    }
}

} // verus!
