//! The capability a windowing-system backend must offer: create a connection,
//! block until the focused window changes, and report an attribute of the
//! currently focused window.

use vstd::prelude::*;

verus! {

/// Which textual property of a window is used for matching: the display
/// title or the application class identifier.
#[derive(Clone, Copy, Debug, PartialEq, Eq, Structural)]
pub enum WindowAttribute {
    Name,
    Class,
}

/// Fatal setup failure: the connection to the windowing system could not be
/// established or the focus-change subscription could not be registered.
#[derive(Debug)]
pub enum BackendError {
    Initialize { detail: String },
}

impl BackendError {
    /// A human-readable description of the failure.
    pub fn describe(&self) -> (r: &String)
        ensures
            self matches BackendError::Initialize { detail } && r@ == detail@,
    {
        match self {
            BackendError::Initialize { detail } => detail,
        }
    }
}

/// The entire boundary an alternative windowing-system backend must
/// implement to be a drop-in replacement.
///
/// Attribute queries degrade gracefully: absence of a focused window or any
/// query failure yields `None`, never a panic, so a single hiccup cannot
/// crash the dispatch loop.
pub trait Backend: Sized {
    /// Establishes the connection to the windowing system and subscribes to
    /// focus-change notifications; fatal on failure, no retry.
    fn create() -> (r: Result<Self, BackendError>);

    /// Blocks the calling thread until a notification indicates that the
    /// focused window changed, filtering out unrelated notifications.
    fn wait_for_focus_change(&mut self);

    /// Reports the requested attribute of the currently focused window.
    /// `None` when there is no focused window, the query fails, or the data
    /// cannot be interpreted.
    fn attribute_of_focused_window(&mut self, attribute: WindowAttribute) -> (r: Option<
        String,
    >);
}

} // verus!
