//! The application shell around the engine: the combined UI state and
//! the per-tick event dispatch.
//!
//! The surrounding program owns the terminal: it polls and classifies
//! keys, hands the result to [`App::handle_events`], and reads the
//! state back to draw. Everything that decides — what a command does
//! to the menu, when the program stops running — lives here.

use vstd::prelude::*;

use crate::events::EventResult;
use crate::focus::FocusOn;
use crate::menu_bar::{handle_event, init_menu_bar_state, initial_menu_bar};
use crate::state::{bar_v, nav_ok, MenuBarUiState};
use crate::transition::{nav_step, opt_path_v};

verus! {

/// The state the renderer reads: where the focus is, and the whole
/// menu tree.
pub struct UiState {
    pub focus_on: FocusOn,
    pub menu_bar_state: MenuBarUiState,
}

impl UiState {
    /// The engine's current top-level mode, for classifying the next
    /// keypress.
    pub fn current_mode(&self) -> (r: FocusOn)
        ensures
            r == self.focus_on,
    {
        self.focus_on
    }
}

/// Whether the application keeps running.
#[derive(Clone, Copy, PartialEq, Eq, Structural, Debug)]
pub enum AppState {
    Running,
    Quitting,
}

/// The application: its run state and the UI state.
pub struct App {
    pub running_state: AppState,
    pub ui_state: UiState,
}

impl Default for App {
    /// A fresh application: running, menu inactive, the initial menu
    /// tree with no flag set anywhere.
    fn default() -> (r: Self)
        ensures
            r.running_state == AppState::Running,
            r.ui_state.focus_on == FocusOn::MainPanel,
            bar_v(r.ui_state.menu_bar_state) == initial_menu_bar(),
            nav_ok(r.ui_state.focus_on, bar_v(r.ui_state.menu_bar_state)),
    {
        App {
            running_state: AppState::Running,
            ui_state: UiState {
                focus_on: FocusOn::MainPanel,
                menu_bar_state: init_menu_bar_state(),
            },
        }
    }
}

impl App {
    /// Whether the main loop should keep going.
    pub fn is_running(&self) -> (r: bool)
        ensures
            r == (self.running_state == AppState::Running),
    {
        self.running_state == AppState::Running
    }

    /// Applies one polled result: `(false, _)` is a tick and does
    /// nothing, `Quit` stops the application, and every other event
    /// goes to the navigation engine. Returns the `LeafChosen` path
    /// when a childless node was chosen.
    pub fn handle_events(&mut self, result: (bool, EventResult)) -> (chosen: Option<Vec<usize>>)
        requires
            nav_ok(old(self).ui_state.focus_on, bar_v(old(self).ui_state.menu_bar_state)),
        ensures
            nav_ok(final(self).ui_state.focus_on, bar_v(final(self).ui_state.menu_bar_state)),
            !result.0 ==> *final(self) == *old(self) && chosen is None,
            result.0 && result.1 == EventResult::Quit ==> ({
                &&& final(self).running_state == AppState::Quitting
                &&& final(self).ui_state == old(self).ui_state
                &&& chosen is None
            }),
            result.0 && result.1 != EventResult::Quit ==> ({
                let s = nav_step(
                    old(self).ui_state.focus_on,
                    bar_v(old(self).ui_state.menu_bar_state),
                    result.1,
                );
                &&& final(self).running_state == old(self).running_state
                &&& final(self).ui_state.focus_on == s.focus
                &&& bar_v(final(self).ui_state.menu_bar_state) == s.bar
                &&& opt_path_v(chosen) == s.chosen
            }),
    {
        if result.0 {
            match result.1 {
                EventResult::Quit => {
                    self.running_state = AppState::Quitting;
                    None
                },
                _ => handle_event(
                    &mut self.ui_state.focus_on,
                    &mut self.ui_state.menu_bar_state,
                    result.1,
                ),
            }
        } else {
            None
        }
    }
}

} // verus!
