//! The navigation engine's transition rules, as functions over the
//! ghost tree.
//!
//! The tabs row and the open branch below it form one chain of nested
//! nodes, so every rule is written once over [`NodeV`]: a pseudo node
//! (the "row") carries the tab index as its focus index and the tabs
//! as its children, and each command acts some number of levels below
//! it. [`nav_step`] assembles the rules into the full transition
//! function of the engine; it is the single source of truth that the
//! executable engine is proved against.

use vstd::prelude::*;

use crate::events::EventResult;
use crate::focus::{FocusOn, Menu};
use crate::state::{
    clear_bar, mode_depth, nav_ok, node_clear, open_path_ok, row_path_ok, BarV, NodeV,
};

verus! {

/// The tabs row wrapped as a node, so that the row and every deeper
/// level follow the same rules. The row's own flags are dummies.
pub open spec fn row(b: BarV) -> NodeV {
    NodeV {
        focused: false,
        selected: false,
        disabled: false,
        focus_on: b.focus_on,
        kids: b.tabs,
    }
}

/// Reads the bar back out of a transformed row node.
pub open spec fn unrow(n: NodeV) -> BarV {
    BarV { focus_on: n.focus_on, tabs: n.kids }
}

/// The chain node `k` levels below `n`, following the focus indices.
pub open spec fn chain_node(n: NodeV, k: nat) -> NodeV
    decreases k,
{
    if k == 0 {
        n
    } else {
        chain_node(n.kids[n.focus_on as int], (k - 1) as nat)
    }
}

/// The focus indices along the chain: the first `k` hops below `n`.
pub open spec fn chain_path(n: NodeV, k: nat) -> Seq<usize>
    decreases k,
{
    if k == 0 {
        Seq::empty()
    } else {
        seq![n.focus_on] + chain_path(n.kids[n.focus_on as int], (k - 1) as nat)
    }
}

/// The previous sibling index, clamped at the first position.
pub open spec fn clamp_prev(i: usize) -> usize {
    if i > 0 {
        (i - 1) as usize
    } else {
        i
    }
}

/// The next sibling index, clamped at the last position.
pub open spec fn clamp_next(i: usize, len: nat) -> usize {
    if i + 1 < len {
        (i + 1) as usize
    } else {
        i
    }
}

/// `n` with the focus flag of child `j` set to `on`.
pub open spec fn focus_kid(n: NodeV, j: int, on: bool) -> NodeV {
    NodeV { kids: n.kids.update(j, NodeV { focused: on, ..n.kids[j] }), ..n }
}

/// Moves the focus one sibling over, `lvl` levels below `n`: the old
/// position loses its focus flag, the clamped new position gains it,
/// and the acting node's focus index follows.
pub open spec fn move_at(n: NodeV, lvl: nat, next: bool) -> NodeV
    decreases lvl,
{
    if lvl == 0 {
        let i = n.focus_on;
        let j = if next {
            clamp_next(i, n.kids.len())
        } else {
            clamp_prev(i)
        };
        let n2 = focus_kid(focus_kid(n, i as int, false), j as int, true);
        NodeV { focus_on: j, ..n2 }
    } else {
        NodeV {
            kids: n.kids.update(
                n.focus_on as int,
                move_at(n.kids[n.focus_on as int], (lvl - 1) as nat, next),
            ),
            ..n
        }
    }
}

/// `Choose` aimed at the chain node `lvl` levels below `n`. If the
/// target has children its branch opens: it becomes selected, its
/// focus index returns to the first child, and that child is focused.
/// If it is childless nothing changes and the focus-index chain down
/// to the target comes back as the chosen path.
pub open spec fn choose_at(n: NodeV, lvl: nat) -> (NodeV, Option<Seq<usize>>)
    decreases lvl,
{
    if lvl == 0 {
        if n.kids.len() > 0 {
            (
                NodeV {
                    selected: true,
                    focus_on: 0,
                    kids: n.kids.update(0, NodeV { focused: true, ..n.kids[0] }),
                    ..n
                },
                None,
            )
        } else {
            (n, Some(Seq::empty()))
        }
    } else {
        let r = choose_at(n.kids[n.focus_on as int], (lvl - 1) as nat);
        let nn = NodeV { kids: n.kids.update(n.focus_on as int, r.0), ..n };
        let p = match r.1 {
            Some(s) => Some(seq![n.focus_on] + s),
            None => None,
        };
        (nn, p)
    }
}

/// `Back` aimed at the chain node `lvl` levels below `n`: the target
/// loses its selection, its focused child loses the focus flag, and
/// the focus returns to the target itself.
pub open spec fn back_at(n: NodeV, lvl: nat) -> NodeV
    decreases lvl,
{
    if lvl == 0 {
        NodeV {
            selected: false,
            kids: n.kids.update(
                n.focus_on as int,
                NodeV { focused: false, ..n.kids[n.focus_on as int] },
            ),
            ..n
        }
    } else {
        NodeV {
            kids: n.kids.update(
                n.focus_on as int,
                back_at(n.kids[n.focus_on as int], (lvl - 1) as nat),
            ),
            ..n
        }
    }
}

/// What one command does: the mode, the tree and the chosen path after
/// the step.
pub struct StepV {
    pub focus: FocusOn,
    pub bar: BarV,
    pub chosen: Option<Seq<usize>>,
}

/// A step that leaves everything as it is and chooses nothing.
pub open spec fn step_noop(f: FocusOn, b: BarV) -> StepV {
    StepV { focus: f, bar: b, chosen: None }
}

/// The mode reached when `Choose` opens a branch.
pub open spec fn mode_deeper(m: Menu) -> FocusOn {
    match m {
        Menu::Tab => FocusOn::MenuBar(Menu::TabItem(0)),
        Menu::TabItem(d) => FocusOn::MenuBar(Menu::TabItem((d + 1) as u16)),
    }
}

/// The mode reached when `Back` closes the innermost branch.
pub open spec fn mode_shallower(d: u16) -> FocusOn {
    if d == 0 {
        FocusOn::MenuBar(Menu::Tab)
    } else {
        FocusOn::MenuBar(Menu::TabItem((d - 1) as u16))
    }
}

/// The engine's full transition function: one command applied to one
/// state. Every command is total; commands that are not meaningful in
/// the current mode leave the state untouched. `Quit` and the no-event
/// tick are never menu commands, and `Choose` at the deepest
/// representable item level is left as a no-op, since the mode after
/// opening one more branch could not be recorded.
pub open spec fn nav_step(f: FocusOn, b: BarV, e: EventResult) -> StepV {
    match e {
        EventResult::EnterMenuBar => match f {
            FocusOn::MainPanel => StepV {
                focus: FocusOn::MenuBar(Menu::Tab),
                bar: BarV { focus_on: 0, tabs: b.tabs.update(0, NodeV { focused: true, ..b.tabs[0] }) },
                chosen: None,
            },
            _ => step_noop(f, b),
        },
        EventResult::QuitMenu => match f {
            FocusOn::MenuBar(_) => StepV {
                focus: FocusOn::MainPanel,
                bar: clear_bar(b),
                chosen: None,
            },
            _ => step_noop(f, b),
        },
        EventResult::MenuPrevItem => match f {
            FocusOn::MenuBar(m) => StepV {
                focus: f,
                bar: unrow(move_at(row(b), mode_depth(f), false)),
                chosen: None,
            },
            _ => step_noop(f, b),
        },
        EventResult::MenuNextItem => match f {
            FocusOn::MenuBar(m) => StepV {
                focus: f,
                bar: unrow(move_at(row(b), mode_depth(f), true)),
                chosen: None,
            },
            _ => step_noop(f, b),
        },
        EventResult::MenuChoose => match f {
            FocusOn::MenuBar(m) => {
                if m matches Menu::TabItem(d) && d == u16::MAX {
                    step_noop(f, b)
                } else {
                    let r = choose_at(row(b), mode_depth(f) + 1);
                    StepV {
                        focus: if r.1 is Some {
                            f
                        } else {
                            mode_deeper(m)
                        },
                        bar: unrow(r.0),
                        chosen: r.1,
                    }
                }
            },
            _ => step_noop(f, b),
        },
        EventResult::PrevMenuLevel => match f {
            FocusOn::MenuBar(Menu::TabItem(d)) => StepV {
                focus: mode_shallower(d),
                bar: unrow(back_at(row(b), mode_depth(f))),
                chosen: None,
            },
            _ => step_noop(f, b),
        },
        EventResult::NoEvent => step_noop(f, b),
        EventResult::Quit => step_noop(f, b),
    }
}

/// While the menu is active, the engine's invariant is exactly the
/// chain condition on the tabs row.
pub proof fn lemma_nav_ok_row(f: FocusOn, b: BarV)
    requires
        f matches FocusOn::MenuBar(_),
    ensures
        nav_ok(f, b) <==> (b.tabs.len() >= 1 && row_path_ok(row(b), mode_depth(f))),
{
}

/// A clear node stays a well-formed chain end once it is focused.
proof fn lemma_clear_to_path_end(n: NodeV)
    requires
        node_clear(n),
    ensures
        open_path_ok(NodeV { focused: true, ..n }, 0),
{
}

/// A chain end that loses its focus flag is clear again.
proof fn lemma_path_end_to_clear(n: NodeV)
    requires
        open_path_ok(n, 0),
    ensures
        node_clear(NodeV { focused: false, ..n }),
{
}

/// Moving the focus keeps the chain condition at the same depth.
pub proof fn lemma_move_at_preserves(n: NodeV, lvl: nat, next: bool)
    requires
        row_path_ok(n, lvl),
    ensures
        row_path_ok(move_at(n, lvl, next), lvl),
    decreases lvl,
{
    let m = move_at(n, lvl, next);
    if lvl == 0 {
        let i = n.focus_on;
        let j = if next {
            clamp_next(i, n.kids.len())
        } else {
            clamp_prev(i)
        };
        if i == j {
            assert(m.kids[j as int] == NodeV { focused: true, ..n.kids[i as int] });
            assert(open_path_ok(m.kids[j as int], 0));
        } else {
            lemma_path_end_to_clear(n.kids[i as int]);
            assert(node_clear(m.kids[i as int]));
            lemma_clear_to_path_end(n.kids[j as int]);
            assert(open_path_ok(m.kids[j as int], 0));
        }
        assert forall|k: int| 0 <= k < m.kids.len() && k != j implies node_clear(
            #[trigger] m.kids[k],
        ) by {
            if k == i {
                lemma_path_end_to_clear(n.kids[i as int]);
            } else {
                assert(m.kids[k] == n.kids[k]);
            }
        }
    } else {
        let f = n.focus_on as int;
        let kid = n.kids[f];
        lemma_move_at_preserves(kid, (lvl - 1) as nat, next);
        let kid2 = move_at(kid, (lvl - 1) as nat, next);
        assert(kid2.focused == kid.focused && kid2.selected == kid.selected);
        assert(open_path_ok(kid2, lvl));
        assert forall|k: int| 0 <= k < m.kids.len() && k != f implies node_clear(
            #[trigger] m.kids[k],
        ) by {
            assert(m.kids[k] == n.kids[k]);
        }
    }
}

/// What `Choose` does, one level above its target: if the target has
/// children the chain grows by one level; if it is childless the tree
/// is untouched and the chosen path is the focus-index chain down to
/// it.
pub proof fn lemma_choose_at_preserves(n: NodeV, lvl: nat)
    requires
        row_path_ok(n, lvl),
    ensures
        ({
            let r = choose_at(n, lvl + 1);
            &&& (r.1 is Some <==> chain_node(n, (lvl + 1) as nat).kids.len() == 0)
            &&& r.1 is None ==> row_path_ok(r.0, lvl + 1)
            &&& r.1 is Some ==> r.0 == n && r.1 == Some(chain_path(n, lvl + 1))
        }),
    decreases lvl,
{
    let f = n.focus_on as int;
    let kid = n.kids[f];
    let r = choose_at(n, lvl + 1);
    if lvl == 0 {
        let rk = choose_at(kid, 0);
        if kid.kids.len() > 0 {
            let kid2 = rk.0;
            assert(node_clear(kid.kids[0]));
            assert(open_path_ok(kid2.kids[0], 0));
            assert forall|k: int| 0 <= k < kid2.kids.len() && k != 0 implies node_clear(
                #[trigger] kid2.kids[k],
            ) by {
                assert(kid2.kids[k] == kid.kids[k]);
            }
            assert(open_path_ok(kid2, 1));
            assert forall|k: int| 0 <= k < r.0.kids.len() && k != f implies node_clear(
                #[trigger] r.0.kids[k],
            ) by {
                assert(r.0.kids[k] == n.kids[k]);
            }
            assert(row_path_ok(r.0, 1));
        } else {
            assert(n.kids.update(f, kid) =~= n.kids);
            assert(r.0 == n);
            assert(chain_path(kid, 0) == Seq::<usize>::empty());
            assert(r.1 == Some(seq![n.focus_on] + Seq::<usize>::empty()));
            assert(seq![n.focus_on] + Seq::<usize>::empty() =~= chain_path(n, 1));
        }
        assert(chain_node(kid, 0) == kid);
        assert(chain_node(n, 1) == kid);
    } else {
        lemma_choose_at_preserves(kid, (lvl - 1) as nat);
        let rk = choose_at(kid, lvl);
        assert(chain_node(n, lvl + 1) == chain_node(n.kids[n.focus_on as int], (lvl + 1 - 1) as nat));
        assert(chain_node(n, lvl + 1) == chain_node(kid, lvl));
        if rk.1 is None {
            let kid2 = rk.0;
            assert(kid2.focused == kid.focused && kid2.selected == kid.selected);
            assert(open_path_ok(kid2, (lvl + 1) as nat));
            assert forall|k: int| 0 <= k < r.0.kids.len() && k != f implies node_clear(
                #[trigger] r.0.kids[k],
            ) by {
                assert(r.0.kids[k] == n.kids[k]);
            }
            assert(row_path_ok(r.0, lvl + 1));
        } else {
            assert(rk.0 == kid);
            assert(n.kids.update(f, kid) =~= n.kids);
            assert(r.0 == n);
            assert(chain_path(n, lvl + 1) == seq![n.focus_on] + chain_path(kid, lvl));
        }
    }
}

/// Closing the innermost branch shortens the chain by one level.
pub proof fn lemma_back_at_preserves(n: NodeV, lvl: nat)
    requires
        row_path_ok(n, lvl),
        lvl >= 1,
    ensures
        row_path_ok(back_at(n, lvl), (lvl - 1) as nat),
    decreases lvl,
{
    let f = n.focus_on as int;
    let kid = n.kids[f];
    let m = back_at(n, lvl);
    if lvl == 1 {
        let kf = kid.focus_on as int;
        let kid2 = back_at(kid, 0);
        lemma_path_end_to_clear(kid.kids[kf]);
        assert(node_clear(kid2.kids[kf]));
        assert forall|k: int| 0 <= k < kid2.kids.len() && k != kf implies node_clear(
            #[trigger] kid2.kids[k],
        ) by {
            assert(kid2.kids[k] == kid.kids[k]);
        }
        assert(open_path_ok(kid2, 0));
        assert forall|k: int| 0 <= k < m.kids.len() && k != f implies node_clear(
            #[trigger] m.kids[k],
        ) by {
            assert(m.kids[k] == n.kids[k]);
        }
        assert(row_path_ok(m, 0));
    } else {
        lemma_back_at_preserves(kid, (lvl - 1) as nat);
        let kid2 = back_at(kid, (lvl - 1) as nat);
        assert(kid2.focused == kid.focused && kid2.selected == kid.selected);
        assert(open_path_ok(kid2, (lvl - 1) as nat));
        assert forall|k: int| 0 <= k < m.kids.len() && k != f implies node_clear(
            #[trigger] m.kids[k],
        ) by {
            assert(m.kids[k] == n.kids[k]);
        }
        assert(row_path_ok(m, (lvl - 1) as nat));
    }
}

/// Every step of the engine keeps the invariant: from any state in
/// which the mode and the tree agree, any command leads to a state in
/// which they agree again.
pub proof fn lemma_nav_step_preserves(f: FocusOn, b: BarV, e: EventResult)
    requires
        nav_ok(f, b),
    ensures
        nav_ok(nav_step(f, b, e).focus, nav_step(f, b, e).bar),
{
    let s = nav_step(f, b, e);
    match e {
        EventResult::EnterMenuBar => {
            if f is MainPanel {
                assert(node_clear(b.tabs[0]));
                lemma_clear_to_path_end(b.tabs[0]);
                assert(open_path_ok(s.bar.tabs[0], 0));
                assert forall|k: int| 0 <= k < s.bar.tabs.len() && k != 0 implies node_clear(
                    #[trigger] s.bar.tabs[k],
                ) by {
                    assert(s.bar.tabs[k] == b.tabs[k]);
                }
            }
        },
        EventResult::QuitMenu => {
            if f matches FocusOn::MenuBar(_) {
                assert forall|k: int| 0 <= k < s.bar.tabs.len() implies node_clear(
                    #[trigger] s.bar.tabs[k],
                ) by {
                    crate::state::lemma_clear_node_clear(b.tabs[k]);
                }
            }
        },
        EventResult::MenuPrevItem | EventResult::MenuNextItem => {
            if f matches FocusOn::MenuBar(m) {
                let next = e is MenuNextItem;
                let r = row(b);
                lemma_move_at_preserves(r, mode_depth(f), next);
                let m2 = move_at(r, mode_depth(f), next);
                assert(row(unrow(m2)) == m2);
                lemma_nav_ok_row(f, unrow(m2));
            }
        },
        EventResult::MenuChoose => {
            if let FocusOn::MenuBar(m) = f {
                if !(m matches Menu::TabItem(d) && d == u16::MAX) {
                    let r = row(b);
                    lemma_choose_at_preserves(r, mode_depth(f));
                    let c = choose_at(r, mode_depth(f) + 1);
                    if c.1 is Some {
                        assert(c.0 == r);
                        assert(unrow(r) == b);
                    } else {
                        assert(row(unrow(c.0)) == c.0);
                        assert(mode_depth(s.focus) == mode_depth(f) + 1);
                        lemma_nav_ok_row(s.focus, unrow(c.0));
                    }
                }
            }
        },
        EventResult::PrevMenuLevel => {
            if f matches FocusOn::MenuBar(Menu::TabItem(d)) {
                let r = row(b);
                lemma_back_at_preserves(r, mode_depth(f));
                let m2 = back_at(r, mode_depth(f));
                assert(row(unrow(m2)) == m2);
                assert(mode_depth(s.focus) == mode_depth(f) - 1);
                lemma_nav_ok_row(s.focus, unrow(m2));
            }
        },
        EventResult::NoEvent => {},
        EventResult::Quit => {},
    }
}

/// The ghost value of an emitted path.
pub open spec fn opt_path_v(r: Option<Vec<usize>>) -> Option<Seq<usize>> {
    match r {
        Some(v) => Some(v@),
        None => None,
    }
}

} // verus!
