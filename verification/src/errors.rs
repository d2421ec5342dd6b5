//! Error taxonomy of the indexing and query pipeline.
//!
//! Per-file failures never abort a batch; per-session failures never touch
//! other sessions. Each variant carries what the caller needs to report.

use vstd::prelude::*;

verus! {

/// A failure of one step of the pipeline.
pub enum AppError {
    /// The file's extension is outside the supported set; the file is
    /// skipped, not reported to the user as an error.
    UnsupportedFileType(String),
    /// The content extractor could not decode the file.
    ExtractionFailed(String),
    /// The embedding call exceeded its time budget; transient.
    EmbeddingTimeout,
    /// The embedding model itself failed.
    EmbeddingModelError(String),
    /// The vector store could not be reached or rejected the operation.
    VectorStoreUnavailable(String),
    /// A watch could not be set up for one folder; other folders are
    /// unaffected.
    WatchSetupFailed(String),
    /// A client message that could not be parsed or carried an unknown
    /// tag; reported to the originating session only.
    MalformedClientMessage(String),
    /// The session's transport failed; fatal for that session only.
    ProtocolTransportError(String),
    /// Anything else.
    Other(String),
}

impl AppError {
    /// A human-readable description, used where the error is sent to a
    /// client or logged.
    pub fn message(&self) -> (r: String)
        ensures
            r@ == self.spec_message(),
    {
        match self {
            AppError::UnsupportedFileType(ext) => {
                String::from_str("file type not supported: ").concat(ext.as_str())
            },
            AppError::ExtractionFailed(detail) => {
                String::from_str("extraction failed: ").concat(detail.as_str())
            },
            AppError::EmbeddingTimeout => String::from_str("embedding timed out"),
            AppError::EmbeddingModelError(detail) => {
                String::from_str("embedding model error: ").concat(detail.as_str())
            },
            AppError::VectorStoreUnavailable(detail) => {
                String::from_str("vector store unavailable: ").concat(detail.as_str())
            },
            AppError::WatchSetupFailed(detail) => {
                String::from_str("watch setup failed: ").concat(detail.as_str())
            },
            AppError::MalformedClientMessage(detail) => {
                String::from_str("malformed client message: ").concat(detail.as_str())
            },
            AppError::ProtocolTransportError(detail) => {
                String::from_str("transport error: ").concat(detail.as_str())
            },
            AppError::Other(detail) => detail.clone(),
        }
    }

    /// The text `message` returns.
    pub open spec fn spec_message(&self) -> Seq<char> {
        match self {
            AppError::UnsupportedFileType(ext) => "file type not supported: "@ + ext@,
            AppError::ExtractionFailed(detail) => "extraction failed: "@ + detail@,
            AppError::EmbeddingTimeout => "embedding timed out"@,
            AppError::EmbeddingModelError(detail) => "embedding model error: "@ + detail@,
            AppError::VectorStoreUnavailable(detail) => "vector store unavailable: "@ + detail@,
            AppError::WatchSetupFailed(detail) => "watch setup failed: "@ + detail@,
            AppError::MalformedClientMessage(detail) => "malformed client message: "@ + detail@,
            AppError::ProtocolTransportError(detail) => "transport error: "@ + detail@,
            AppError::Other(detail) => detail@,
        }
    }
}

} // verus!
