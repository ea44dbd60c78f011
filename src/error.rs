//! Diagnostics collected during a build, and the library's error type.
use vstd::prelude::*;
use crate::text::concat;

verus! {

/// Why a build step failed.
#[derive(Debug, Clone)]
pub enum BuildError {
    Io(String),
    Json(String),
    Yaml(String),
    Template(String),
    Parse { file: String, message: String },
    Cache(String),
    Config(String),
    ThreadPool(String),
    FileNotFound(String),
    InvalidFormat(String),
    CrossReference { reference: String },
    TemplateNotFound(String),
    SyntaxHighlight(String),
}

/// Kinds of advisory findings.
#[derive(Debug, Clone, Copy, PartialEq, Eq, Structural)]
pub enum WarningType {
    MissingToctreeRef,
    OrphanedDocument,
    BrokenCrossReference,
    MissingFile,
    UnusedLabel,
    DuplicateLabel,
    EmptyToctree,
    Other,
}

/// Kinds of reported errors.
#[derive(Debug, Clone, Copy, PartialEq, Eq, Structural)]
pub enum ErrorType {
    ParseError,
    FileNotFound,
    TemplateError,
    SyntaxError,
    Other,
}

/// An advisory finding against a file.
#[derive(Debug, Clone)]
pub struct BuildWarning {
    pub file: String,
    pub line: Option<usize>,
    pub message: String,
    pub warning_type: WarningType,
}

/// An error found against a file.
#[derive(Debug, Clone)]
pub struct BuildErrorReport {
    pub file: String,
    pub line: Option<usize>,
    pub message: String,
    pub error_type: ErrorType,
}

/// The message for a navigation entry whose target does not exist.
pub open spec fn missing_ref_message(reference: Seq<char>) -> Seq<char> {
    "toctree contains reference to nonexisting document '"@ + reference + "'"@
}

/// The message for a document that no navigation entry reaches.
pub open spec fn orphan_message() -> Seq<char> {
    "document isn't included in any toctree"@
}

/// The message for a cross-reference whose target does not exist.
pub open spec fn broken_ref_message(reference: Seq<char>) -> Seq<char> {
    "cross-reference target not found: '"@ + reference + "'"@
}

impl BuildWarning {
    pub fn new(file: String, line: Option<usize>, message: String, warning_type: WarningType) -> (r: Self)
        ensures
            r.file == file,
            r.line == line,
            r.message == message,
            r.warning_type == warning_type,
    {
        BuildWarning { file, line, message, warning_type }
    }

    pub fn missing_toctree_ref(file: String, line: Option<usize>, reference: &str) -> (r: Self)
        ensures
            r.file == file,
            r.line == line,
            r.message@ == missing_ref_message(reference@),
            r.warning_type == WarningType::MissingToctreeRef,
    {
        let head = concat("toctree contains reference to nonexisting document '", reference);
        let message = concat(head.as_str(), "'");
        Self::new(file, line, message, WarningType::MissingToctreeRef)
    }

    pub fn orphaned_document(file: String) -> (r: Self)
        ensures
            r.file == file,
            r.line.is_none(),
            r.message@ == orphan_message(),
            r.warning_type == WarningType::OrphanedDocument,
    {
        Self::new(
            file,
            None,
            String::from_str("document isn't included in any toctree"),
            WarningType::OrphanedDocument,
        )
    }

    pub fn broken_cross_reference(file: String, line: Option<usize>, reference: &str) -> (r: Self)
        ensures
            r.file == file,
            r.line == line,
            r.message@ == broken_ref_message(reference@),
            r.warning_type == WarningType::BrokenCrossReference,
    {
        let head = concat("cross-reference target not found: '", reference);
        let message = concat(head.as_str(), "'");
        Self::new(file, line, message, WarningType::BrokenCrossReference)
    }
}

impl BuildErrorReport {
    pub fn new(file: String, line: Option<usize>, message: String, error_type: ErrorType) -> (r: Self)
        ensures
            r.file == file,
            r.line == line,
            r.message == message,
            r.error_type == error_type,
    {
        BuildErrorReport { file, line, message, error_type }
    }
}

} // verus!
