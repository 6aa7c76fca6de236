//! The failures that operations on a model report.
use vstd::prelude::*;

verus! {

/// What went wrong. Transforms raise only `TransformError`; the other kinds
/// come from the collaborators round the transform engine (export, import,
/// plugins, the file system).
#[derive(Debug, Clone, PartialEq, Eq)]
pub enum Error {
    /// A read or write failed; the message is the one the I/O layer gave.
    IoError(String),
    /// The model's data does not describe a valid mesh.
    InvalidModelData(String),
    /// Serialising a model failed.
    ExportError(String),
    /// Reading a model failed.
    ImportError(String),
    /// A transform cannot be applied with its parameters.
    TransformError(String),
    /// A plugin reported a failure.
    PluginError(String),
}

} // verus!
