//! The executable navigation engine: building the menu state tree and
//! applying one classified command to it.
//!
//! Every function here is proved against the ghost transition rules of
//! [`crate::transition`]: what `handle_event` does to the tree is
//! exactly what [`nav_step`] says, and the engine's invariant
//! [`nav_ok`] is preserved by every step.

use vstd::prelude::*;

use crate::error::MenuError;
use crate::events::EventResult;
use crate::focus::{FocusOn, Menu};
use crate::state::{
    bar_v, item_kids, item_v, lemma_item_v_fields, lemma_tab_v_fields, mode_depth, nav_ok,
    node_clear, open_path_ok, tab_kids, tab_v, BarV, MenuBarUiState, MenuTabItemUiState,
    MenuTabUiState, NodeV,
};
use crate::transition::{back_at, choose_at, move_at, nav_step, opt_path_v, row, unrow};

verus! {

/// Moves the focus one sibling over among the children of the chain
/// node `lvl` levels below `n`.
fn item_move(n: &mut MenuTabItemUiState, lvl: u16, next: bool)
    requires
        open_path_ok(item_v(*old(n)), lvl as nat + 1),
    ensures
        item_v(*final(n)) == move_at(item_v(*old(n)), lvl as nat, next),
    decreases lvl,
{
    let ghost ov = item_v(*old(n));
    let kids_opt = n.sub_item_state.take();
    match kids_opt {
        Some(mut v) => {
            proof {
                assert(item_kids(*old(n)) == v@);
                assert(ov.kids.len() == v@.len());
            }
            if lvl == 0 {
                let i = n.focus_on;
                proof {
                    assert(open_path_ok(ov, 1));
                    assert(ov.focus_on < ov.kids.len());
                    assert(i < v@.len());
                }
                let len = v.len();
                let j = if next {
                    if i + 1 < len {
                        i + 1
                    } else {
                        i
                    }
                } else {
                    if i > 0 {
                        i - 1
                    } else {
                        i
                    }
                };
                let ghost vi = v@[i as int];
                v[i].is_focused = false;
                let ghost vj = v@[j as int];
                v[j].is_focused = true;
                n.focus_on = j;
                n.sub_item_state = Some(v);
                proof {
                    let m = move_at(ov, 0, next);
                    lemma_item_v_fields(vi, MenuTabItemUiState { is_focused: false, ..vi });
                    lemma_item_v_fields(vj, MenuTabItemUiState { is_focused: true, ..vj });
                    assert(item_v(*n).kids =~= m.kids);
                    assert(item_v(*n) == m);
                }
            } else {
                let f = n.focus_on;
                item_move(&mut v[f], lvl - 1, next);
                n.sub_item_state = Some(v);
                proof {
                    let m = move_at(ov, lvl as nat, next);
                    assert(item_v(*n).kids =~= m.kids);
                    assert(item_v(*n) == m);
                }
            }
        },
        None => {
            proof {
                assert(ov.kids.len() == 0);
                assert(false);
            }
        },
    }
}

/// Moves the focus one sibling over among the children of the chain
/// node `lvl` levels below tab `t`.
fn tab_move(t: &mut MenuTabUiState, lvl: u16, next: bool)
    requires
        open_path_ok(tab_v(*old(t)), lvl as nat + 1),
    ensures
        tab_v(*final(t)) == move_at(tab_v(*old(t)), lvl as nat, next),
    decreases lvl,
{
    let ghost ov = tab_v(*old(t));
    let kids_opt = t.sub_item_state.take();
    match kids_opt {
        Some(mut v) => {
            if lvl == 0 {
                let i = t.focus_on;
                proof {
                    assert(tab_kids(*old(t)) == v@);
                    assert(open_path_ok(ov, 1));
                    assert(ov.focus_on < ov.kids.len());
                    assert(i < v@.len());
                }
                let len = v.len();
                let j = if next {
                    if i + 1 < len {
                        i + 1
                    } else {
                        i
                    }
                } else {
                    if i > 0 {
                        i - 1
                    } else {
                        i
                    }
                };
                let ghost vi = v@[i as int];
                v[i].is_focused = false;
                let ghost vj = v@[j as int];
                v[j].is_focused = true;
                t.focus_on = j;
                t.sub_item_state = Some(v);
                proof {
                    let m = move_at(ov, 0, next);
                    lemma_item_v_fields(vi, MenuTabItemUiState { is_focused: false, ..vi });
                    lemma_item_v_fields(vj, MenuTabItemUiState { is_focused: true, ..vj });
                    assert(tab_v(*t).kids =~= m.kids);
                    assert(tab_v(*t) == m);
                }
            } else {
                let f = t.focus_on;
                item_move(&mut v[f], lvl - 1, next);
                t.sub_item_state = Some(v);
                proof {
                    let m = move_at(ov, lvl as nat, next);
                    assert(tab_v(*t).kids =~= m.kids);
                    assert(tab_v(*t) == m);
                }
            }
        },
        None => {
            proof {
                assert(ov.kids.len() == 0);
                assert(false);
            }
        },
    }
}

/// `Choose` aimed at the chain node `lvl` levels below `n`: opens its
/// branch, or reports the focus-index chain to it when it is childless.
fn item_choose(n: &mut MenuTabItemUiState, lvl: u16) -> (r: Option<Vec<usize>>)
    requires
        open_path_ok(item_v(*old(n)), lvl as nat),
    ensures
        item_v(*final(n)) == choose_at(item_v(*old(n)), lvl as nat).0,
        opt_path_v(r) == choose_at(item_v(*old(n)), lvl as nat).1,
    decreases lvl,
{
    let ghost ov = item_v(*old(n));
    if lvl == 0 {
        let with_kids = match &n.sub_item_state {
            Some(v) => v.len() > 0,
            None => false,
        };
        if !with_kids {
            proof {
                assert(ov.kids.len() == 0);
            }
            return Some(Vec::new());
        }
        n.is_selected = true;
        n.focus_on = 0;
        let kids_opt = n.sub_item_state.take();
        match kids_opt {
            Some(mut v) => {
                let ghost v0 = v@[0];
                v[0].is_focused = true;
                n.sub_item_state = Some(v);
                proof {
                    let c = choose_at(ov, 0).0;
                    lemma_item_v_fields(v0, MenuTabItemUiState { is_focused: true, ..v0 });
                    assert(item_v(*n).kids =~= c.kids);
                    assert(item_v(*n) == c);
                }
                None
            },
            None => {
                proof {
                    assert(false);
                }
                None
            },
        }
    } else {
        let f = n.focus_on;
        let kids_opt = n.sub_item_state.take();
        match kids_opt {
            Some(mut v) => {
                proof {
                    assert(item_kids(*old(n)) == v@);
                    assert(ov.focus_on < ov.kids.len());
                }
                let sub = item_choose(&mut v[f], lvl - 1);
                n.sub_item_state = Some(v);
                proof {
                    let c = choose_at(ov, lvl as nat).0;
                    assert(item_v(*n).kids =~= c.kids);
                    assert(item_v(*n) == c);
                }
                match sub {
                    Some(mut p) => {
                        p.insert(0, f);
                        proof {
                            let cp = choose_at(ov, lvl as nat).1;
                            assert(p@ =~= cp->Some_0);
                        }
                        Some(p)
                    },
                    None => None,
                }
            },
            None => {
                proof {
                    assert(ov.kids.len() == 0);
                    assert(false);
                }
                None
            },
        }
    }
}

/// `Choose` aimed at the chain node `lvl` levels below tab `t`.
fn tab_choose(t: &mut MenuTabUiState, lvl: u16) -> (r: Option<Vec<usize>>)
    requires
        open_path_ok(tab_v(*old(t)), lvl as nat),
    ensures
        tab_v(*final(t)) == choose_at(tab_v(*old(t)), lvl as nat).0,
        opt_path_v(r) == choose_at(tab_v(*old(t)), lvl as nat).1,
    decreases lvl,
{
    let ghost ov = tab_v(*old(t));
    if lvl == 0 {
        let with_kids = match &t.sub_item_state {
            Some(v) => v.len() > 0,
            None => false,
        };
        if !with_kids {
            proof {
                assert(ov.kids.len() == 0);
            }
            return Some(Vec::new());
        }
        t.is_selected = true;
        t.focus_on = 0;
        let kids_opt = t.sub_item_state.take();
        match kids_opt {
            Some(mut v) => {
                let ghost v0 = v@[0];
                v[0].is_focused = true;
                t.sub_item_state = Some(v);
                proof {
                    let c = choose_at(ov, 0).0;
                    lemma_item_v_fields(v0, MenuTabItemUiState { is_focused: true, ..v0 });
                    assert(tab_v(*t).kids =~= c.kids);
                    assert(tab_v(*t) == c);
                }
                None
            },
            None => {
                proof {
                    assert(false);
                }
                None
            },
        }
    } else {
        let f = t.focus_on;
        let kids_opt = t.sub_item_state.take();
        match kids_opt {
            Some(mut v) => {
                proof {
                    assert(tab_kids(*old(t)) == v@);
                    assert(ov.focus_on < ov.kids.len());
                }
                let sub = item_choose(&mut v[f], lvl - 1);
                t.sub_item_state = Some(v);
                proof {
                    let c = choose_at(ov, lvl as nat).0;
                    assert(tab_v(*t).kids =~= c.kids);
                    assert(tab_v(*t) == c);
                }
                match sub {
                    Some(mut p) => {
                        p.insert(0, f);
                        proof {
                            let cp = choose_at(ov, lvl as nat).1;
                            assert(p@ =~= cp->Some_0);
                        }
                        Some(p)
                    },
                    None => None,
                }
            },
            None => {
                proof {
                    assert(ov.kids.len() == 0);
                    assert(false);
                }
                None
            },
        }
    }
}

/// `Back` aimed at the chain node `lvl` levels below `n`: closes its
/// branch and returns the focus to it.
fn item_back(n: &mut MenuTabItemUiState, lvl: u16)
    requires
        open_path_ok(item_v(*old(n)), lvl as nat + 1),
    ensures
        item_v(*final(n)) == back_at(item_v(*old(n)), lvl as nat),
    decreases lvl,
{
    let ghost ov = item_v(*old(n));
    if lvl == 0 {
        n.is_selected = false;
        let f = n.focus_on;
        let kids_opt = n.sub_item_state.take();
        match kids_opt {
            Some(mut v) => {
                proof {
                    assert(ov.focus_on < ov.kids.len());
                    assert(f < v@.len());
                }
                let ghost vf = v@[f as int];
                v[f].is_focused = false;
                n.sub_item_state = Some(v);
                proof {
                    let c = back_at(ov, 0);
                    lemma_item_v_fields(vf, MenuTabItemUiState { is_focused: false, ..vf });
                    assert(item_v(*n).kids =~= c.kids);
                    assert(item_v(*n) == c);
                }
            },
            None => {
                proof {
                    assert(ov.kids.len() == 0);
                    assert(false);
                }
            },
        }
    } else {
        let f = n.focus_on;
        let kids_opt = n.sub_item_state.take();
        match kids_opt {
            Some(mut v) => {
                item_back(&mut v[f], lvl - 1);
                n.sub_item_state = Some(v);
                proof {
                    let c = back_at(ov, lvl as nat);
                    assert(item_v(*n).kids =~= c.kids);
                    assert(item_v(*n) == c);
                }
            },
            None => {
                proof {
                    assert(ov.kids.len() == 0);
                    assert(false);
                }
            },
        }
    }
}

/// `Back` aimed at the chain node `lvl` levels below tab `t`.
fn tab_back(t: &mut MenuTabUiState, lvl: u16)
    requires
        open_path_ok(tab_v(*old(t)), lvl as nat + 1),
    ensures
        tab_v(*final(t)) == back_at(tab_v(*old(t)), lvl as nat),
    decreases lvl,
{
    let ghost ov = tab_v(*old(t));
    if lvl == 0 {
        t.is_selected = false;
        let f = t.focus_on;
        let kids_opt = t.sub_item_state.take();
        match kids_opt {
            Some(mut v) => {
                proof {
                    assert(tab_kids(*old(t)) == v@);
                    assert(ov.focus_on < ov.kids.len());
                    assert(f < v@.len());
                }
                let ghost vf = v@[f as int];
                v[f].is_focused = false;
                t.sub_item_state = Some(v);
                proof {
                    let c = back_at(ov, 0);
                    lemma_item_v_fields(vf, MenuTabItemUiState { is_focused: false, ..vf });
                    assert(tab_v(*t).kids =~= c.kids);
                    assert(tab_v(*t) == c);
                }
            },
            None => {
                proof {
                    assert(ov.kids.len() == 0);
                    assert(false);
                }
            },
        }
    } else {
        let f = t.focus_on;
        let kids_opt = t.sub_item_state.take();
        match kids_opt {
            Some(mut v) => {
                proof {
                    assert(tab_kids(*old(t)) == v@);
                }
                item_back(&mut v[f], lvl - 1);
                t.sub_item_state = Some(v);
                proof {
                    let c = back_at(ov, lvl as nat);
                    assert(tab_v(*t).kids =~= c.kids);
                    assert(tab_v(*t) == c);
                }
            },
            None => {
                proof {
                    assert(ov.kids.len() == 0);
                    assert(false);
                }
            },
        }
    }
}

/// Moves the tab-row or item focus for one `MovePrev` / `MoveNext`
/// command, at the level given by the mode.
fn bar_move(b: &mut MenuBarUiState, m: Menu, next: bool)
    requires
        nav_ok(FocusOn::MenuBar(m), bar_v(*old(b))),
    ensures
        bar_v(*final(b)) == unrow(
            move_at(row(bar_v(*old(b))), mode_depth(FocusOn::MenuBar(m)), next),
        ),
{
    let ghost ob = bar_v(*old(b));
    match m {
        Menu::Tab => {
            let i = b.focus_on;
            let len = b.tab_state.len();
            proof {
                assert(ob.focus_on < ob.tabs.len());
                assert(ob.tabs.len() == b.tab_state@.len());
            }
            let j = if next {
                if i + 1 < len {
                    i + 1
                } else {
                    i
                }
            } else {
                if i > 0 {
                    i - 1
                } else {
                    i
                }
            };
            let ghost ti = b.tab_state@[i as int];
            let t = &mut b.tab_state[i];
            t.is_focused = false;
            let ghost tj = b.tab_state@[j as int];
            let t = &mut b.tab_state[j];
            t.is_focused = true;
            b.focus_on = j;
            proof {
                let g = unrow(move_at(row(ob), 0, next));
                lemma_tab_v_fields(ti, MenuTabUiState { is_focused: false, ..ti });
                lemma_tab_v_fields(tj, MenuTabUiState { is_focused: true, ..tj });
                assert(bar_v(*b).tabs =~= g.tabs);
                assert(bar_v(*b) == g);
            }
        },
        Menu::TabItem(d) => {
            let f = b.focus_on;
            proof {
                assert(ob.focus_on < ob.tabs.len());
                assert(ob.tabs.len() == b.tab_state@.len());
                assert(ob.tabs[f as int] == tab_v(b.tab_state@[f as int]));
            }
            tab_move(&mut b.tab_state[f], d, next);
            proof {
                let g = unrow(move_at(row(ob), (d as nat) + 1, next));
                assert(bar_v(*b).tabs =~= g.tabs);
                assert(bar_v(*b) == g);
            }
        },
    }
}

/// Applies one `Choose` command at the level given by the mode.
fn bar_choose(b: &mut MenuBarUiState, m: Menu) -> (r: Option<Vec<usize>>)
    requires
        nav_ok(FocusOn::MenuBar(m), bar_v(*old(b))),
        m matches Menu::TabItem(d) ==> d < u16::MAX,
    ensures
        bar_v(*final(b)) == unrow(
            choose_at(row(bar_v(*old(b))), mode_depth(FocusOn::MenuBar(m)) + 1).0,
        ),
        opt_path_v(r) == choose_at(row(bar_v(*old(b))), mode_depth(FocusOn::MenuBar(m)) + 1).1,
{
    let ghost ob = bar_v(*old(b));
    let f = b.focus_on;
    let lvl: u16 = match m {
        Menu::Tab => 0,
        Menu::TabItem(d) => d + 1,
    };
    proof {
        assert(ob.focus_on < ob.tabs.len());
        assert(ob.tabs.len() == b.tab_state@.len());
        assert(ob.tabs[f as int] == tab_v(b.tab_state@[f as int]));
    }
    let sub = tab_choose(&mut b.tab_state[f], lvl);
    proof {
        let g = unrow(choose_at(row(ob), mode_depth(FocusOn::MenuBar(m)) + 1).0);
        assert(bar_v(*b).tabs =~= g.tabs);
        assert(bar_v(*b) == g);
    }
    match sub {
        Some(mut p) => {
            p.insert(0, f);
            proof {
                let cp = choose_at(row(ob), mode_depth(FocusOn::MenuBar(m)) + 1).1;
                assert(p@ =~= cp->Some_0);
            }
            Some(p)
        },
        None => None,
    }
}

/// Applies one `Back` command at item level `d`.
fn bar_back(b: &mut MenuBarUiState, d: u16)
    requires
        nav_ok(FocusOn::MenuBar(Menu::TabItem(d)), bar_v(*old(b))),
    ensures
        bar_v(*final(b)) == unrow(
            back_at(row(bar_v(*old(b))), mode_depth(FocusOn::MenuBar(Menu::TabItem(d)))),
        ),
{
    let ghost ob = bar_v(*old(b));
    let f = b.focus_on;
    proof {
        assert(ob.focus_on < ob.tabs.len());
        assert(ob.tabs.len() == b.tab_state@.len());
        assert(ob.tabs[f as int] == tab_v(b.tab_state@[f as int]));
    }
    tab_back(&mut b.tab_state[f], d);
    proof {
        let g = unrow(back_at(row(ob), (d as nat) + 1));
        assert(bar_v(*b).tabs =~= g.tabs);
        assert(bar_v(*b) == g);
    }
}

/// Applies one classified command to the menu state: the sole
/// authority for cursor movement and selection transitions.
///
/// Every command is total: commands that are not meaningful in the
/// current mode leave the state untouched. The returned path is the
/// `LeafChosen` hand-off: it is `Some` exactly when `Choose` reached a
/// childless node, and then holds the focus-index chain from the tab
/// down to that node. What the call does to the tree and the mode is
/// exactly [`nav_step`] applied to the ghost view of the state, and
/// the engine's invariant [`nav_ok`] is preserved.
pub fn handle_event(
    focus_on: &mut FocusOn,
    menu_bar_state: &mut MenuBarUiState,
    event: EventResult,
) -> (chosen: Option<Vec<usize>>)
    requires
        nav_ok(*old(focus_on), bar_v(*old(menu_bar_state))),
    ensures
        ({
            let s = nav_step(*old(focus_on), bar_v(*old(menu_bar_state)), event);
            &&& *final(focus_on) == s.focus
            &&& bar_v(*final(menu_bar_state)) == s.bar
            &&& opt_path_v(chosen) == s.chosen
        }),
        nav_ok(*final(focus_on), bar_v(*final(menu_bar_state))),
{
    proof {
        crate::transition::lemma_nav_step_preserves(
            *old(focus_on),
            bar_v(*old(menu_bar_state)),
            event,
        );
    }
    let ghost ob = bar_v(*old(menu_bar_state));
    match event {
        EventResult::EnterMenuBar => {
            match *focus_on {
                FocusOn::MainPanel => {
                    proof {
                        assert(ob.tabs.len() >= 1);
                        assert(ob.tabs.len() == menu_bar_state.tab_state@.len());
                    }
                    menu_bar_state.focus_on = 0;
                    let ghost t0 = menu_bar_state.tab_state@[0];
                    let t = &mut menu_bar_state.tab_state[0];
                    t.is_focused = true;
                    *focus_on = FocusOn::MenuBar(Menu::Tab);
                    proof {
                        let g = nav_step(FocusOn::MainPanel, ob, EventResult::EnterMenuBar).bar;
                        lemma_tab_v_fields(t0, MenuTabUiState { is_focused: true, ..t0 });
                        assert(bar_v(*menu_bar_state).tabs =~= g.tabs);
                        assert(bar_v(*menu_bar_state) == g);
                    }
                    None
                },
                _ => None,
            }
        },
        EventResult::QuitMenu => {
            match *focus_on {
                FocusOn::MenuBar(_) => {
                    menu_bar_state.reset_all_focus_and_selection();
                    *focus_on = FocusOn::MainPanel;
                    None
                },
                _ => None,
            }
        },
        EventResult::MenuPrevItem => {
            match *focus_on {
                FocusOn::MenuBar(m) => {
                    bar_move(menu_bar_state, m, false);
                    None
                },
                _ => None,
            }
        },
        EventResult::MenuNextItem => {
            match *focus_on {
                FocusOn::MenuBar(m) => {
                    bar_move(menu_bar_state, m, true);
                    None
                },
                _ => None,
            }
        },
        EventResult::MenuChoose => {
            match *focus_on {
                FocusOn::MenuBar(m) => {
                    let maxed = match m {
                        Menu::TabItem(d) => d == u16::MAX,
                        Menu::Tab => false,
                    };
                    if maxed {
                        None
                    } else {
                        let r = bar_choose(menu_bar_state, m);
                        match r {
                            Some(p) => Some(p),
                            None => {
                                *focus_on = match m {
                                    Menu::Tab => FocusOn::MenuBar(Menu::TabItem(0)),
                                    Menu::TabItem(d) => FocusOn::MenuBar(Menu::TabItem(d + 1)),
                                };
                                None
                            },
                        }
                    }
                },
                _ => None,
            }
        },
        EventResult::PrevMenuLevel => {
            match *focus_on {
                FocusOn::MenuBar(Menu::TabItem(d)) => {
                    bar_back(menu_bar_state, d);
                    *focus_on = if d == 0 {
                        FocusOn::MenuBar(Menu::Tab)
                    } else {
                        FocusOn::MenuBar(Menu::TabItem(d - 1))
                    };
                    None
                },
                _ => None,
            }
        },
        EventResult::NoEvent => None,
        EventResult::Quit => None,
    }
}

/// The view of a freshly built leaf item.
pub open spec fn initial_leaf(disabled: bool) -> NodeV {
    NodeV { focused: false, selected: false, disabled, focus_on: 0, kids: Seq::empty() }
}

/// The view of a freshly built tab over leaf items with the given
/// disabled flags.
pub open spec fn initial_tab(dis: Seq<bool>) -> NodeV {
    NodeV {
        focused: false,
        selected: false,
        disabled: false,
        focus_on: 0,
        kids: Seq::new(dis.len(), |i: int| initial_leaf(dis[i])),
    }
}

/// The menu this application starts with: four tabs whose items are
/// all leaves, no flag set anywhere, every focus index at the first
/// position. The disabled flags follow which actions are wired up.
pub open spec fn initial_menu_bar() -> BarV {
    BarV {
        focus_on: 0,
        tabs: seq![
            initial_tab(seq![false, false, true, true, true, false]),
            initial_tab(seq![true, true]),
            initial_tab(seq![true, true]),
            initial_tab(seq![true, false]),
        ],
    }
}

/// Builds one leaf item's state record.
fn new_item(disabled: bool) -> (r: MenuTabItemUiState)
    ensures
        item_v(r) == initial_leaf(disabled),
{
    let r = MenuTabItemUiState {
        is_focused: false,
        focus_on: 0,
        is_disabled: disabled,
        is_selected: false,
        sub_item_state: None,
    };
    proof {
        assert(item_v(r).kids =~= initial_leaf(disabled).kids);
    }
    r
}

/// Builds one enabled tab's state record over the given items.
fn new_tab(items: Vec<MenuTabItemUiState>) -> (r: MenuTabUiState)
    ensures
        tab_v(r) == (NodeV {
            focused: false,
            selected: false,
            disabled: false,
            focus_on: 0,
            kids: Seq::new(items@.len(), |i: int| item_v(items@[i])),
        }),
{
    let r = MenuTabUiState {
        is_focused: false,
        focus_on: 0,
        is_disabled: false,
        is_selected: false,
        sub_item_state: Some(items),
    };
    proof {
        assert(tab_v(r).kids =~= Seq::new(items@.len(), |i: int| item_v(items@[i])));
    }
    r
}

/// Builds the menu bar's initial state: every flag off, every focus
/// index at the first position. The per-item disabled flags mirror
/// which menu actions the application has wired up.
pub fn init_menu_bar_state() -> (r: MenuBarUiState)
    ensures
        bar_v(r) == initial_menu_bar(),
        nav_ok(FocusOn::MainPanel, bar_v(r)),
{
    let mut tabs: Vec<MenuTabUiState> = Vec::new();

    // File tab
    let mut items: Vec<MenuTabItemUiState> = Vec::new();
    items.push(new_item(false));  // New KeyPair
    items.push(new_item(false));  // Import
    items.push(new_item(true));  // Search On Server
    items.push(new_item(true));  // Decrypt/Verify
    items.push(new_item(true));  // Encrypt/Sign
    items.push(new_item(false));  // Quit
    proof {
        assert(Seq::new(items@.len(), |i: int| item_v(items@[i])) =~= initial_tab(
            seq![false, false, true, true, true, false],
        ).kids);
    }
    tabs.push(new_tab(items));

    // Tool tab
    let mut items: Vec<MenuTabItemUiState> = Vec::new();
    items.push(new_item(true));  // Refresh OpenPGP Cert
    items.push(new_item(true));  // Restart Backend Process
    proof {
        assert(Seq::new(items@.len(), |i: int| item_v(items@[i])) =~= initial_tab(
            seq![true, true],
        ).kids);
    }
    tabs.push(new_tab(items));

    // Setting tab
    let mut items: Vec<MenuTabItemUiState> = Vec::new();
    items.push(new_item(true));  // General
    items.push(new_item(true));  // Server
    proof {
        assert(Seq::new(items@.len(), |i: int| item_v(items@[i])) =~= initial_tab(
            seq![true, true],
        ).kids);
    }
    tabs.push(new_tab(items));

    // Help tab
    let mut items: Vec<MenuTabItemUiState> = Vec::new();
    items.push(new_item(true));  // Check Update
    items.push(new_item(false));  // About
    proof {
        assert(Seq::new(items@.len(), |i: int| item_v(items@[i])) =~= initial_tab(
            seq![true, false],
        ).kids);
    }
    tabs.push(new_tab(items));

    let r = MenuBarUiState { focus_on: 0, tab_state: tabs };
    proof {
        assert(bar_v(r).tabs =~= initial_menu_bar().tabs);
        assert(bar_v(r) == initial_menu_bar());
        lemma_initial_menu_bar_clear();
    }
    r
}

/// The initial menu state has no flag set anywhere.
pub proof fn lemma_initial_menu_bar_clear()
    ensures
        nav_ok(FocusOn::MainPanel, initial_menu_bar()),
{
    let b = initial_menu_bar();
    assert forall|i: int| 0 <= i < b.tabs.len() implies node_clear(#[trigger] b.tabs[i]) by {
        let t = b.tabs[i];
        assert forall|k: int| 0 <= k < t.kids.len() implies node_clear(#[trigger] t.kids[k]) by {
            assert(t.kids[k].kids.len() == 0);
        }
    }
}

/// One tab of a menu definition: its own disabled flag and the
/// disabled flags of its leaf items, in order. Labels and hotkeys are
/// the renderer's and are not part of the state tree.
pub struct MenuTabDef {
    pub disabled: bool,
    pub item_disabled: Vec<bool>,
}

/// The view of a tab built from one definition entry.
pub open spec fn built_tab(d: MenuTabDef) -> NodeV {
    NodeV {
        focused: false,
        selected: false,
        disabled: d.disabled,
        focus_on: 0,
        kids: Seq::new(d.item_disabled@.len(), |i: int| initial_leaf(d.item_disabled@[i])),
    }
}

/// The view of the tree built from a whole definition.
pub open spec fn built_bar(s: Seq<MenuTabDef>) -> BarV {
    BarV { focus_on: 0, tabs: Seq::new(s.len(), |i: int| built_tab(s[i])) }
}

/// Builds a menu tree from an ordered definition of tabs and their
/// items. Fails exactly when the definition has no tabs; the result
/// starts with every flag off and every focus index at the first
/// position, so the menu is inactive and consistent.
pub fn build(def: &Vec<MenuTabDef>) -> (r: Result<MenuBarUiState, MenuError>)
    ensures
        r is Err <==> def@.len() == 0,
        r is Err ==> r->Err_0 == MenuError::EmptyMenuDefinition,
        r is Ok ==> bar_v(r->Ok_0) == built_bar(def@),
        r is Ok ==> nav_ok(FocusOn::MainPanel, bar_v(r->Ok_0)),
{
    let n = def.len();
    if n == 0 {
        return Err(MenuError::EmptyMenuDefinition);
    }
    let mut tabs: Vec<MenuTabUiState> = Vec::new();
    let mut t: usize = 0;
    while t < n
        invariant
            n == def@.len(),
            t <= n,
            tabs@.len() == t,
            forall|i: int| 0 <= i < t ==> #[trigger] tab_v(tabs@[i]) == built_tab(def@[i]),
        decreases n - t,
    {
        let m = def[t].item_disabled.len();
        let mut items: Vec<MenuTabItemUiState> = Vec::new();
        let mut k: usize = 0;
        while k < m
            invariant
                t < n,
                n == def@.len(),
                m == def@[t as int].item_disabled@.len(),
                k <= m,
                items@.len() == k,
                forall|i: int|
                    0 <= i < k ==> #[trigger] item_v(items@[i]) == initial_leaf(
                        def@[t as int].item_disabled@[i],
                    ),
            decreases m - k,
        {
            let dis = def[t].item_disabled[k];
            items.push(new_item(dis));
            k = k + 1;
        }
        let tab = MenuTabUiState {
            is_focused: false,
            focus_on: 0,
            is_disabled: def[t].disabled,
            is_selected: false,
            sub_item_state: Some(items),
        };
        proof {
            assert(tab_v(tab).kids =~= built_tab(def@[t as int]).kids);
            assert(tab_v(tab) == built_tab(def@[t as int]));
        }
        tabs.push(tab);
        t = t + 1;
    }
    let bar = MenuBarUiState { focus_on: 0, tab_state: tabs };
    proof {
        assert(bar_v(bar).tabs =~= built_bar(def@).tabs);
        assert(bar_v(bar) == built_bar(def@));
        lemma_built_bar_clear(def@);
    }
    Ok(bar)
}

/// A freshly built tree has no flag set anywhere.
pub proof fn lemma_built_bar_clear(s: Seq<MenuTabDef>)
    requires
        s.len() >= 1,
    ensures
        nav_ok(FocusOn::MainPanel, built_bar(s)),
{
    let b = built_bar(s);
    assert forall|i: int| 0 <= i < b.tabs.len() implies node_clear(#[trigger] b.tabs[i]) by {
        let t = b.tabs[i];
        assert forall|k: int| 0 <= k < t.kids.len() implies node_clear(#[trigger] t.kids[k]) by {
            assert(t.kids[k].kids.len() == 0);
        }
    }
}

} // verus!
