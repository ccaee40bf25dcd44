//! Runtime validation of the engine's invariant.
//!
//! The engine itself never breaks [`nav_ok`], but the surrounding
//! application owns the state between ticks and is told to abort
//! rather than navigate on a corrupted cursor; these checks decide
//! exactly the invariant, so a caller can test it before handing the
//! state to the engine.

use vstd::prelude::*;

use crate::app::UiState;
use crate::error::MenuError;
use crate::focus::{FocusOn, Menu};
use crate::state::{
    bar_v, item_kids, item_v, nav_ok, node_clear, open_path_ok, tab_v,
    MenuBarUiState, MenuTabItemUiState, MenuTabUiState,
};

verus! {

/// Whether no flag is set anywhere in the item's subtree.
fn check_item_clear(n: &MenuTabItemUiState) -> (r: bool)
    ensures
        r == node_clear(item_v(*n)),
    decreases *n,
{
    if n.is_focused || n.is_selected {
        return false;
    }
    match &n.sub_item_state {
        Some(v) => {
            let len = v.len();
            let mut k: usize = 0;
            while k < len
                invariant
                    len == v@.len(),
                    k <= len,
                    item_kids(*n) == v@,
                    forall|i: int| 0 <= i < k ==> node_clear(#[trigger] item_v(v@[i])),
                decreases len - k,
            {
                proof {
                    assert(decreases_to!(*n => v@[k as int]));
                }
                if !check_item_clear(&v[k]) {
                    proof {
                        assert(item_v(*n).kids[k as int] == item_v(v@[k as int]));
                    }
                    return false;
                }
                k = k + 1;
            }
            proof {
                assert forall|i: int| 0 <= i < item_v(*n).kids.len() implies node_clear(
                    #[trigger] item_v(*n).kids[i],
                ) by {
                    assert(item_v(*n).kids[i] == item_v(v@[i]));
                }
            }
            true
        },
        None => true,
    }
}

/// Whether the chain below item `n` runs exactly `d` more levels, with
/// everything off it clear.
fn check_item_path(n: &MenuTabItemUiState, d: u16) -> (r: bool)
    ensures
        r == open_path_ok(item_v(*n), d as nat),
    decreases d,
{
    if !n.is_focused {
        return false;
    }
    if d == 0 {
        if n.is_selected {
            return false;
        }
        match &n.sub_item_state {
            Some(v) => {
                let len = v.len();
                let mut k: usize = 0;
                while k < len
                    invariant
                        d == 0,
                        n.is_focused,
                        !n.is_selected,
                        len == v@.len(),
                        k <= len,
                        item_kids(*n) == v@,
                        forall|i: int| 0 <= i < k ==> node_clear(#[trigger] item_v(v@[i])),
                    decreases len - k,
                {
                    if !check_item_clear(&v[k]) {
                        proof {
                            assert(item_v(*n).kids[k as int] == item_v(v@[k as int]));
                        }
                        return false;
                    }
                    k = k + 1;
                }
                proof {
                    assert forall|i: int| 0 <= i < item_v(*n).kids.len() implies node_clear(
                        #[trigger] item_v(*n).kids[i],
                    ) by {
                        assert(item_v(*n).kids[i] == item_v(v@[i]));
                    }
                }
                true
            },
            None => true,
        }
    } else {
        if !n.is_selected {
            return false;
        }
        match &n.sub_item_state {
            Some(v) => {
                let len = v.len();
                let f = n.focus_on;
                if f >= len {
                    return false;
                }
                let mut k: usize = 0;
                while k < len
                    invariant
                        d > 0,
                        n.is_focused,
                        n.is_selected,
                        len == v@.len(),
                        k <= len,
                        f < len,
                        f == n.focus_on,
                        item_kids(*n) == v@,
                        forall|i: int|
                            0 <= i < k && i != f ==> node_clear(#[trigger] item_v(v@[i])),
                    decreases len - k,
                {
                    if k != f {
                        if !check_item_clear(&v[k]) {
                            proof {
                                assert(item_v(*n).kids[k as int] == item_v(v@[k as int]));
                            }
                            return false;
                        }
                    }
                    k = k + 1;
                }
                let sub = check_item_path(&v[f], d - 1);
                proof {
                    assert(item_v(*n).kids[f as int] == item_v(v@[f as int]));
                    assert forall|i: int|
                        0 <= i < item_v(*n).kids.len() && i != f implies node_clear(
                        #[trigger] item_v(*n).kids[i],
                    ) by {
                        assert(item_v(*n).kids[i] == item_v(v@[i]));
                    }
                }
                sub
            },
            None => false,
        }
    }
}

/// Whether no flag is set anywhere in the tab's subtree.
fn check_tab_clear(t: &MenuTabUiState) -> (r: bool)
    ensures
        r == node_clear(tab_v(*t)),
{
    if t.is_focused || t.is_selected {
        return false;
    }
    match &t.sub_item_state {
        Some(v) => {
            let len = v.len();
            let mut k: usize = 0;
            while k < len
                invariant
                    len == v@.len(),
                    k <= len,
                    crate::state::tab_kids(*t) == v@,
                    forall|i: int| 0 <= i < k ==> node_clear(#[trigger] item_v(v@[i])),
                decreases len - k,
            {
                if !check_item_clear(&v[k]) {
                    proof {
                        assert(tab_v(*t).kids[k as int] == item_v(v@[k as int]));
                    }
                    return false;
                }
                k = k + 1;
            }
            proof {
                assert forall|i: int| 0 <= i < tab_v(*t).kids.len() implies node_clear(
                    #[trigger] tab_v(*t).kids[i],
                ) by {
                    assert(tab_v(*t).kids[i] == item_v(v@[i]));
                }
            }
            true
        },
        None => true,
    }
}

/// Whether the chain below tab `t` runs exactly `d` more levels.
fn check_tab_path(t: &MenuTabUiState, d: u16, selected: bool) -> (r: bool)
    ensures
        selected ==> r == open_path_ok(tab_v(*t), d as nat + 1),
        !selected ==> r == open_path_ok(tab_v(*t), 0),
{
    if !t.is_focused {
        return false;
    }
    if !selected {
        if t.is_selected {
            return false;
        }
        match &t.sub_item_state {
            Some(v) => {
                let len = v.len();
                let mut k: usize = 0;
                while k < len
                    invariant
                        !selected,
                        t.is_focused,
                        !t.is_selected,
                        len == v@.len(),
                        k <= len,
                        crate::state::tab_kids(*t) == v@,
                        forall|i: int| 0 <= i < k ==> node_clear(#[trigger] item_v(v@[i])),
                    decreases len - k,
                {
                    if !check_item_clear(&v[k]) {
                        proof {
                            assert(tab_v(*t).kids[k as int] == item_v(v@[k as int]));
                            assert(!node_clear(tab_v(*t).kids[k as int]));
                            assert(!open_path_ok(tab_v(*t), 0));
                        }
                        return false;
                    }
                    k = k + 1;
                }
                proof {
                    assert forall|i: int| 0 <= i < tab_v(*t).kids.len() implies node_clear(
                        #[trigger] tab_v(*t).kids[i],
                    ) by {
                        assert(tab_v(*t).kids[i] == item_v(v@[i]));
                    }
                }
                true
            },
            None => true,
        }
    } else {
        if !t.is_selected {
            return false;
        }
        match &t.sub_item_state {
            Some(v) => {
                let len = v.len();
                let f = t.focus_on;
                if f >= len {
                    return false;
                }
                let mut k: usize = 0;
                while k < len
                    invariant
                        selected,
                        t.is_focused,
                        t.is_selected,
                        len == v@.len(),
                        k <= len,
                        f < len,
                        f == t.focus_on,
                        crate::state::tab_kids(*t) == v@,
                        forall|i: int|
                            0 <= i < k && i != f ==> node_clear(#[trigger] item_v(v@[i])),
                    decreases len - k,
                {
                    if k != f {
                        if !check_item_clear(&v[k]) {
                            proof {
                                assert(tab_v(*t).kids[k as int] == item_v(v@[k as int]));
                                assert(!node_clear(tab_v(*t).kids[k as int]));
                                assert((k as int) < tab_v(*t).kids.len());
                                assert(tab_v(*t).focus_on == f);
                                assert((k as int) != (tab_v(*t).focus_on as int));
                                assert(!open_path_ok(tab_v(*t), d as nat + 1));
                            }
                            return false;
                        }
                    }
                    k = k + 1;
                }
                let sub = check_item_path(&v[f], d);
                proof {
                    assert(tab_v(*t).kids[f as int] == item_v(v@[f as int]));
                    assert forall|i: int|
                        0 <= i < tab_v(*t).kids.len() && i != f implies node_clear(
                        #[trigger] tab_v(*t).kids[i],
                    ) by {
                        assert(tab_v(*t).kids[i] == item_v(v@[i]));
                    }
                }
                sub
            },
            None => false,
        }
    }
}

/// Whether the recorded mode and the tree agree: decides [`nav_ok`].
pub fn check_nav_state(focus_on: &FocusOn, menu_bar_state: &MenuBarUiState) -> (r: bool)
    ensures
        r == nav_ok(*focus_on, bar_v(*menu_bar_state)),
{
    let len = menu_bar_state.tab_state.len();
    if len == 0 {
        return false;
    }
    match *focus_on {
        FocusOn::MainPanel => {
            let mut k: usize = 0;
            while k < len
                invariant
                    *focus_on is MainPanel,
                    len == menu_bar_state.tab_state@.len(),
                    k <= len,
                    forall|i: int| 0 <= i < k ==> node_clear(#[trigger] tab_v(menu_bar_state.tab_state@[i])),
                decreases len - k,
            {
                if !check_tab_clear(&menu_bar_state.tab_state[k]) {
                    proof {
                        assert(bar_v(*menu_bar_state).tabs[k as int] == tab_v(menu_bar_state.tab_state@[k as int]));
                        assert(!node_clear(bar_v(*menu_bar_state).tabs[k as int]));
                        assert(!crate::state::bar_clear(bar_v(*menu_bar_state)));
                    }
                    return false;
                }
                k = k + 1;
            }
            proof {
                assert forall|i: int| 0 <= i < bar_v(*menu_bar_state).tabs.len() implies node_clear(
                    #[trigger] bar_v(*menu_bar_state).tabs[i],
                ) by {
                    assert(bar_v(*menu_bar_state).tabs[i] == tab_v(menu_bar_state.tab_state@[i]));
                }
            }
            true
        },
        FocusOn::MenuBar(m) => {
            let f = menu_bar_state.focus_on;
            if f >= len {
                return false;
            }
            let mut k: usize = 0;
            while k < len
                invariant
                    *focus_on == FocusOn::MenuBar(m),
                    len == menu_bar_state.tab_state@.len(),
                    k <= len,
                    f < len,
                    f == menu_bar_state.focus_on,
                    forall|i: int|
                        0 <= i < k && i != f ==> node_clear(#[trigger] tab_v(menu_bar_state.tab_state@[i])),
                decreases len - k,
            {
                if k != f {
                    if !check_tab_clear(&menu_bar_state.tab_state[k]) {
                        proof {
                            assert(bar_v(*menu_bar_state).tabs[k as int] == tab_v(menu_bar_state.tab_state@[k as int]));
                            assert(!node_clear(bar_v(*menu_bar_state).tabs[k as int]));
                            assert((k as int) < bar_v(*menu_bar_state).tabs.len());
                            assert(bar_v(*menu_bar_state).focus_on == f);
                            assert((k as int) != (bar_v(*menu_bar_state).focus_on as int));
                            assert(!nav_ok(*focus_on, bar_v(*menu_bar_state)));
                        }
                        return false;
                    }
                }
                k = k + 1;
            }
            let sub = match m {
                Menu::Tab => check_tab_path(&menu_bar_state.tab_state[f], 0, false),
                Menu::TabItem(d) => check_tab_path(&menu_bar_state.tab_state[f], d, true),
            };
            proof {
                assert(bar_v(*menu_bar_state).tabs[f as int] == tab_v(menu_bar_state.tab_state@[f as int]));
                assert forall|i: int|
                    0 <= i < bar_v(*menu_bar_state).tabs.len() && i != f implies node_clear(
                    #[trigger] bar_v(*menu_bar_state).tabs[i],
                ) by {
                    assert(bar_v(*menu_bar_state).tabs[i] == tab_v(menu_bar_state.tab_state@[i]));
                }
            }
            sub
        },
    }
}

impl UiState {
    /// `Ok` exactly when the cursor and the tree agree; the surrounding
    /// application should treat the error as fatal rather than keep
    /// navigating.
    pub fn validate(&self) -> (r: Result<(), MenuError>)
        ensures
            r is Ok <==> nav_ok(self.focus_on, bar_v(self.menu_bar_state)),
            r is Err ==> r->Err_0 == MenuError::InconsistentCursorState,
    {
        if check_nav_state(&self.focus_on, &self.menu_bar_state) {
            Ok(())
        } else {
            Err(MenuError::InconsistentCursorState)
        }
    }
}

} // verus!
