//! Where the application's input focus currently sits.

use vstd::prelude::*;

verus! {

/// The top-level focus target of the application.
#[derive(Clone, Copy, PartialEq, Eq, Structural, Debug)]
pub enum FocusOn {
    /// Focus is inside the menu bar, at the given menu level.
    MenuBar(Menu),
    /// The menu is inactive; the main panel owns the input.
    MainPanel,
}

/// Which level of the menu currently receives move commands.
#[derive(Clone, Copy, PartialEq, Eq, Structural, Debug)]
pub enum Menu {
    /// The row of top-level tabs.
    Tab,
    /// The items of the open branch, `TabItem(d)` meaning `d` levels of
    /// nesting below the first item level.
    TabItem(u16),
}

} // verus!
