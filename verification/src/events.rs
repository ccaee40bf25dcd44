//! The classified navigation commands the engine consumes.
//!
//! The surrounding application turns each raw keypress into one of
//! these values, based on the engine's current mode; the engine never
//! sees key codes.

use vstd::prelude::*;

verus! {

/// One classified input event. `NoEvent` is the no-event tick; `Quit`
/// asks the whole application to stop and is not a menu command.
#[derive(Clone, Copy, PartialEq, Eq, Structural, Debug)]
pub enum EventResult {
    NoEvent,
    EnterMenuBar,
    QuitMenu,
    MenuNextItem,
    MenuPrevItem,
    MenuChoose,
    PrevMenuLevel,
    Quit,
}

impl Default for EventResult {
    /// The default event is the no-event tick.
    fn default() -> (r: Self)
        ensures
            r == EventResult::NoEvent,
    {
        EventResult::NoEvent
    }
}

} // verus!
