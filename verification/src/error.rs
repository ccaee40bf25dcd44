//! The few things that can go wrong around the engine.

use vstd::prelude::*;

verus! {

/// Menu-level failures. Construction refuses an empty definition;
/// a cursor state that disagrees with the tree is an internal fault
/// that the application should treat as fatal.
#[derive(Clone, Copy, PartialEq, Eq, Structural, Debug)]
pub enum MenuError {
    EmptyMenuDefinition,
    InconsistentCursorState,
}

impl MenuError {
    /// A short description for logs.
    pub fn message(&self) -> (r: &'static str)
        ensures
            *self == MenuError::EmptyMenuDefinition ==> r@ == "menu definition has no tabs"@,
            *self == MenuError::InconsistentCursorState ==> r@
                == "cursor state does not match the menu tree"@,
    {
        match self {
            MenuError::EmptyMenuDefinition => "menu definition has no tabs",
            MenuError::InconsistentCursorState => "cursor state does not match the menu tree",
        }
    }
}

} // verus!
