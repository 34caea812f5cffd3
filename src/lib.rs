//! Finds the projects of a multi-project build solution that declare a
//! dependency on a named component, and tells how each one declares it.

pub mod classify;
pub mod dialect;
pub mod scanner;
pub mod search;
pub mod solution;
pub mod text;

pub use classify::{
    classify, classify_events, has_reference, normalize_target, ProjectReferenceRecord,
    ReferenceKind,
};
pub use dialect::project_dialect;
pub use scanner::{scan_document, Attribute, Element, ScanEvent};
pub use search::{find_references, ProjectDocument, SearchReport};
pub use solution::{enumerate_projects, SolutionError};
