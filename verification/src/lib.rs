//! Walks a snapshot of a directory tree and normalizes file and directory
//! names: white space and hyphens become underscores, and characters that
//! are not ASCII alphanumerics, underscores or periods are dropped.
//! Matching paths can be ignored by glob patterns, and proposed renames are
//! either reported or carried out.

pub mod lint;
pub mod matcher;
pub mod paths;
pub mod render;
pub mod traverse;
