//! What can go wrong while a pipeline is configured, walked or rendered.
use vstd::prelude::*;

verus! {

/// An error that aborts a generation run.
#[derive(Debug, Clone, Copy, PartialEq, Eq, Structural)]
pub enum PipelineError {
    /// An extension that starts with `.`, or a pattern that does not compile.
    InvalidRule,
    /// A directory entry could not be read during the walk.
    TraversalError,
    /// A path does not lie under the asset root it was found in, or a path
    /// or URI holds a NUL character.
    PathError,
    /// A plain pipeline matched no file at all.
    EmptyResult,
    /// Reading or writing a file failed.
    IoError,
    /// No destination for the generated file was set.
    PathNotSet,
    /// The name of the generated constant is not an identifier.
    InvalidIdentifier,
}

} // verus!
