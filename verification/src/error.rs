//! The error type shared by every operation of the library.

use vstd::prelude::*;

verus! {

/// Everything that can go wrong in the pane registry and class loader.
///
/// All failures are reported to the immediate caller as values of this type;
/// none abort the process.
#[derive(Debug, Clone, PartialEq, Eq)]
pub enum DivError {
    /// A pane or class operation ran before a successful initialization.
    NotInitialized,
    /// Initialization ran a second time without an intervening teardown.
    AlreadyInitialized,
    /// The mount element with the given id could not be found.
    MissingRoot(String),
    /// No mount id was given and the document has no body to mount to.
    MissingBody,
    /// A pane handle that is not (or no longer) in the registry was used.
    UnknownHandle,
    /// A class handle that was never issued by the registry was used.
    UnknownClassHandle,
    /// The external module at the requested source failed to load.
    ModuleLoadFailed,
    /// The loaded module does not export a class of the given name.
    ExportNotFound(String),
}

} // verus!
