//! Navigation core for a terminal application's hierarchical menu bar.
//!
//! The library models the menu as a tree of per-node UI state records
//! (focused / selected / disabled flags plus a focus index into the
//! children) and drives it with a small state machine: discrete
//! navigation commands move the focus among siblings, descend into a
//! selected branch, back out of it, or leave the menu entirely.
//! Everything here is plain data and total transition functions; reading
//! the keyboard and drawing the menu belong to the surrounding
//! application.

pub mod app;
pub mod check;
pub mod error;
pub mod events;
pub mod focus;
pub mod laws;
pub mod menu_bar;
pub mod state;
pub mod transition;
