//! Data model of the pipeline: file records, tasks, events, queries and
//! statistics.
//!
//! Values that outside collaborators produce — embedding vectors,
//! similarity scores, modification times — are carried as plain scaled
//! integers, so the coordination logic over them can be verified;
//! callers convert at the boundary.

use vstd::prelude::*;

use crate::text::spec_summary;

verus! {

/// Dimensionality of every embedding vector the pipeline accepts.
pub const VECTOR_SIZE: usize = 768;

/// A fixed-length embedding vector. Components are the model's outputs
/// scaled to integers by the caller; the coordination logic reads only
/// the vector's presence and dimension.
pub struct Embedding {
    pub values: Vec<i64>,
}

impl Embedding {
    /// An embedding is well-formed when it has exactly the collection's
    /// dimensionality.
    pub open spec fn wf(&self) -> bool {
        self.values@.len() == VECTOR_SIZE
    }

    /// Builds an embedding; `None` exactly when the dimension is wrong.
    pub fn new(values: Vec<i64>) -> (r: Option<Embedding>)
        ensures
            match r {
                Some(e) => e.wf() && e.values@ == values@,
                None => values@.len() != VECTOR_SIZE,
            },
    {
        if values.len() == VECTOR_SIZE {
            Some(Embedding { values })
        } else {
            None
        }
    }
}

/// One indexed file, as the catalog records it.
pub struct FileInfo {
    /// Process-unique identifier, assigned at first successful index of
    /// the path and kept over re-indexing; never reused after deletion.
    pub id: u64,
    /// Final path segment, for display.
    pub name: String,
    /// Canonical path; the catalog's unique key.
    pub path: String,
    /// Lowercased extension; drives extractor dispatch.
    pub file_type: String,
    /// First part of the content, for display.
    pub summary: String,
    /// Full extracted text.
    pub content: String,
    /// Filesystem modification time, milliseconds since the epoch.
    pub modified: i64,
    /// Present exactly when the embedding call for `content` succeeded;
    /// presence makes the record semantically searchable.
    pub embedding: Option<Embedding>,
}

impl FileInfo {
    /// A record is well-formed when its summary is derived from its
    /// content and its embedding, if present, has the right dimension.
    pub open spec fn wf(&self) -> bool {
        &&& self.summary@ == spec_summary(self.content@)
        &&& match self.embedding {
            Some(e) => e.wf(),
            None => true,
        }
    }
}

/// A filesystem change notification, after conversion from the native
/// watcher's form.
pub enum FileEvent {
    Created(String),
    Modified(String),
    Deleted(String),
}

impl FileEvent {
    /// The path the event is about.
    pub open spec fn spec_path(&self) -> Seq<char> {
        match self {
            FileEvent::Created(p) => p@,
            FileEvent::Modified(p) => p@,
            FileEvent::Deleted(p) => p@,
        }
    }

    /// The kind of work the event asks for.
    pub open spec fn spec_kind(&self) -> TaskKind {
        match self {
            FileEvent::Created(_) => TaskKind::Create,
            FileEvent::Modified(_) => TaskKind::Modify,
            FileEvent::Deleted(_) => TaskKind::Delete,
        }
    }
}

/// What an indexing task does to its path.
#[derive(Clone, Copy, PartialEq, Eq, Structural)]
pub enum TaskKind {
    Create,
    Modify,
    Delete,
}

/// One unit of indexing work for one path; consumed exactly once by the
/// coordinator.
pub struct IndexTask {
    pub path: String,
    pub kind: TaskKind,
}

/// Turns a watch event into the task the coordinator consumes.
pub fn event_to_task(event: &FileEvent) -> (t: IndexTask)
    ensures
        t.path@ == event.spec_path(),
        t.kind == event.spec_kind(),
{
    match event {
        FileEvent::Created(p) => IndexTask { path: p.clone(), kind: TaskKind::Create },
        FileEvent::Modified(p) => IndexTask { path: p.clone(), kind: TaskKind::Modify },
        FileEvent::Deleted(p) => IndexTask { path: p.clone(), kind: TaskKind::Delete },
    }
}

/// A client's search request.
pub struct SearchQuery {
    pub text: String,
    pub limit: Option<usize>,
}

/// One ranked hit as the vector store returns it: an identifier and a
/// cosine score scaled to thousandths, so it lies in
/// `[-SCORE_SCALE, SCORE_SCALE]`.
#[derive(Clone, Copy)]
pub struct ScoredId {
    pub id: u64,
    pub score_milli: i64,
}

/// Scale of `ScoredId::score_milli`: a cosine score of 1.0 is stored as
/// this many thousandths.
pub const SCORE_SCALE: i64 = 1000;

/// One search hit after resolution against the catalog: the record's
/// summary view and its similarity score.
pub struct SearchHit {
    pub id: u64,
    pub name: String,
    pub path: String,
    pub file_type: String,
    pub summary: String,
    pub modified: i64,
    pub score_milli: i64,
}

/// What a search returns to the requesting session.
pub struct SearchResult {
    pub files: Vec<SearchHit>,
    pub total: usize,
    pub query_time_ms: u64,
}

/// Aggregate progress of one batch indexing run.
#[derive(Clone, Copy)]
pub struct IndexStats {
    pub total_files: usize,
    pub indexed_files: usize,
    pub failed_files: usize,
    pub total_chunks: usize,
    pub index_size_bytes: u64,
}

impl IndexStats {
    /// The all-zero statistics a batch starts from.
    pub fn zero() -> (r: IndexStats)
        ensures
            r.total_files == 0,
            r.indexed_files == 0,
            r.failed_files == 0,
            r.total_chunks == 0,
            r.index_size_bytes == 0,
    {
        IndexStats {
            total_files: 0,
            indexed_files: 0,
            failed_files: 0,
            total_chunks: 0,
            index_size_bytes: 0,
        }
    }
}

/// Static configuration of the index.
pub struct IndexConfig {
    pub folders: Vec<String>,
    pub file_types: Vec<String>,
    pub chunk_size: usize,
    pub index_path: String,
}

} // verus!
