//! The engine's global guarantees, each proved once and for all from
//! the contracts in [`crate::transition`] and [`crate::state`].
//!
//! Together with [`crate::transition::lemma_nav_step_preserves`] and
//! the initial-state facts of [`crate::menu_bar`], these cover every
//! reachable state: the initial state satisfies [`nav_ok`], every step
//! keeps it, and each law below follows from it.

use vstd::prelude::*;

use crate::events::EventResult;
use crate::focus::{FocusOn, Menu};
use crate::state::{
    bar_clear, mode_depth, nav_ok, node_clear, open_path_ok, row_path_ok, BarV, NodeV,
};
use crate::transition::{
    chain_node, chain_path, lemma_choose_at_preserves, move_at, nav_step, row, unrow,
};

verus! {

/// How many nodes of the subtree are selected.
pub open spec fn sel_count(n: NodeV) -> nat
    decreases n,
{
    (if n.selected {
        1nat
    } else {
        0nat
    }) + seq_sel_count(n.kids)
}

/// How many nodes of all the subtrees are selected.
pub open spec fn seq_sel_count(s: Seq<NodeV>) -> nat
    decreases s,
{
    if s.len() == 0 {
        0
    } else {
        sel_count(s[0]) + seq_sel_count(s.drop_first())
    }
}

/// How many nodes of the subtree are focused.
pub open spec fn foc_count(n: NodeV) -> nat
    decreases n,
{
    (if n.focused {
        1nat
    } else {
        0nat
    }) + seq_foc_count(n.kids)
}

/// How many nodes of all the subtrees are focused.
pub open spec fn seq_foc_count(s: Seq<NodeV>) -> nat
    decreases s,
{
    if s.len() == 0 {
        0
    } else {
        foc_count(s[0]) + seq_foc_count(s.drop_first())
    }
}

/// A clear subtree holds no selected and no focused node.
pub proof fn lemma_clear_counts(n: NodeV)
    requires
        node_clear(n),
    ensures
        sel_count(n) == 0,
        foc_count(n) == 0,
    decreases n,
{
    lemma_clear_seq_counts(n.kids);
}

/// Clear subtrees hold no selected and no focused node.
pub proof fn lemma_clear_seq_counts(s: Seq<NodeV>)
    requires
        forall|i: int| 0 <= i < s.len() ==> node_clear(#[trigger] s[i]),
    ensures
        seq_sel_count(s) == 0,
        seq_foc_count(s) == 0,
    decreases s,
{
    if s.len() > 0 {
        lemma_clear_counts(s[0]);
        assert forall|i: int| 0 <= i < s.drop_first().len() implies node_clear(
            #[trigger] s.drop_first()[i],
        ) by {
            assert(s.drop_first()[i] == s[i + 1]);
        }
        lemma_clear_seq_counts(s.drop_first());
    }
}

/// In a row of subtrees that are all clear except the one at `f`, the
/// counts are those of that one subtree.
pub proof fn lemma_one_active_counts(s: Seq<NodeV>, f: int)
    requires
        0 <= f < s.len(),
        forall|i: int| 0 <= i < s.len() && i != f ==> node_clear(#[trigger] s[i]),
    ensures
        seq_sel_count(s) == sel_count(s[f]),
        seq_foc_count(s) == foc_count(s[f]),
    decreases s.len(),
{
    if f == 0 {
        assert forall|i: int| 0 <= i < s.drop_first().len() implies node_clear(
            #[trigger] s.drop_first()[i],
        ) by {
            assert(s.drop_first()[i] == s[i + 1]);
        }
        lemma_clear_seq_counts(s.drop_first());
    } else {
        lemma_clear_counts(s[0]);
        assert forall|i: int|
            0 <= i < s.drop_first().len() && i != f - 1 implies node_clear(
            #[trigger] s.drop_first()[i],
        ) by {
            assert(s.drop_first()[i] == s[i + 1]);
        }
        lemma_one_active_counts(s.drop_first(), f - 1);
        assert(s.drop_first()[f - 1] == s[f]);
    }
}

/// Along an active chain of `d` more levels, exactly `d` nodes are
/// selected and exactly `d + 1` are focused — one per level, since
/// everything off the chain is clear.
pub proof fn lemma_chain_counts(n: NodeV, d: nat)
    requires
        open_path_ok(n, d),
    ensures
        sel_count(n) == d,
        foc_count(n) == d + 1,
    decreases d,
{
    if d == 0 {
        lemma_clear_seq_counts(n.kids);
    } else {
        lemma_one_active_counts(n.kids, n.focus_on as int);
        lemma_chain_counts(n.kids[n.focus_on as int], (d - 1) as nat);
    }
}

/// At item level `d`, exactly `d + 1` nodes of the whole tree are
/// selected (the tab and the items above the chain's end) and exactly
/// `d + 2` are focused — one per level of the active path, and none
/// anywhere else.
pub proof fn lemma_item_level_counts(b: BarV, d: u16)
    requires
        nav_ok(FocusOn::MenuBar(Menu::TabItem(d)), b),
    ensures
        seq_sel_count(b.tabs) == d + 1,
        seq_foc_count(b.tabs) == d + 2,
{
    lemma_one_active_counts(b.tabs, b.focus_on as int);
    lemma_chain_counts(b.tabs[b.focus_on as int], d as nat + 1);
}

/// At tab level, no node is selected and exactly the focused tab is
/// focused.
pub proof fn lemma_tab_level_counts(b: BarV)
    requires
        nav_ok(FocusOn::MenuBar(Menu::Tab), b),
    ensures
        seq_sel_count(b.tabs) == 0,
        seq_foc_count(b.tabs) == 1,
{
    lemma_one_active_counts(b.tabs, b.focus_on as int);
    lemma_chain_counts(b.tabs[b.focus_on as int], 0);
}

/// A move whose acting node already sits at the boundary changes
/// nothing below `n`.
proof fn lemma_move_at_boundary(n: NodeV, lvl: nat, next: bool)
    requires
        row_path_ok(n, lvl),
        next ==> chain_node(n, lvl).focus_on + 1 >= chain_node(n, lvl).kids.len(),
        !next ==> chain_node(n, lvl).focus_on == 0,
    ensures
        move_at(n, lvl, next) == n,
    decreases lvl,
{
    if lvl == 0 {
        let i = n.focus_on;
        assert(chain_node(n, 0) == n);
        assert(n.kids[i as int].focused);
        assert(move_at(n, 0, next).kids =~= n.kids);
        assert(move_at(n, 0, next) == n);
    } else {
        let f = n.focus_on as int;
        assert(chain_node(n, lvl) == chain_node(n.kids[f], (lvl - 1) as nat));
        lemma_move_at_boundary(n.kids[f], (lvl - 1) as nat, next);
        assert(n.kids.update(f, n.kids[f]) =~= n.kids);
        assert(move_at(n, lvl, next) == n);
    }
}

/// `MovePrev` with the first sibling focused, and `MoveNext` with the
/// last, are no-ops: the index clamps, nothing in the tree changes,
/// and repeating the command keeps changing nothing.
pub proof fn lemma_move_boundary_is_noop(f: FocusOn, b: BarV, next: bool)
    requires
        nav_ok(f, b),
        f matches FocusOn::MenuBar(_),
        next ==> chain_node(row(b), mode_depth(f)).focus_on + 1 >= chain_node(
            row(b),
            mode_depth(f),
        ).kids.len(),
        !next ==> chain_node(row(b), mode_depth(f)).focus_on == 0,
    ensures
        ({
            let e = if next {
                EventResult::MenuNextItem
            } else {
                EventResult::MenuPrevItem
            };
            nav_step(f, b, e) == crate::transition::step_noop(f, b)
        }),
{
    crate::transition::lemma_nav_ok_row(f, b);
    lemma_move_at_boundary(row(b), mode_depth(f), next);
    assert(unrow(row(b)) == b);
}

/// `QuitMenu` from any active-menu state returns to the main panel
/// with zero focused and zero selected nodes in the entire tree, and
/// chooses nothing.
pub proof fn lemma_quit_clears(f: FocusOn, b: BarV)
    requires
        nav_ok(f, b),
        f matches FocusOn::MenuBar(_),
    ensures
        ({
            let s = nav_step(f, b, EventResult::QuitMenu);
            &&& s.focus == FocusOn::MainPanel
            &&& bar_clear(s.bar)
            &&& seq_sel_count(s.bar.tabs) == 0
            &&& seq_foc_count(s.bar.tabs) == 0
            &&& s.chosen is None
        }),
{
    let s = nav_step(f, b, EventResult::QuitMenu);
    assert forall|k: int| 0 <= k < s.bar.tabs.len() implies node_clear(
        #[trigger] s.bar.tabs[k],
    ) by {
        crate::state::lemma_clear_node_clear(b.tabs[k]);
    }
    lemma_clear_seq_counts(s.bar.tabs);
}

/// `Choose` on a childless chain end emits exactly one chosen path —
/// the focus-index chain from the tab row down to that node — and
/// leaves the mode and the whole tree unchanged, the target's
/// selection clear.
pub proof fn lemma_choose_on_leaf(f: FocusOn, b: BarV)
    requires
        nav_ok(f, b),
        f matches FocusOn::MenuBar(_),
        f != FocusOn::MenuBar(Menu::TabItem(u16::MAX)),
        chain_node(row(b), mode_depth(f) + 1).kids.len() == 0,
    ensures
        ({
            let s = nav_step(f, b, EventResult::MenuChoose);
            &&& s.chosen == Some(chain_path(row(b), mode_depth(f) + 1))
            &&& s.bar == b
            &&& s.focus == f
        }),
{
    crate::transition::lemma_nav_ok_row(f, b);
    lemma_choose_at_preserves(row(b), mode_depth(f));
    assert(unrow(row(b)) == b);
}

/// `EnterMenu` followed immediately by `QuitMenu` hands every tab
/// back exactly as it was — all flags still off, every focus index at
/// every level untouched — and, if the tab-row index already pointed
/// at the first tab, the whole state round-trips exactly.
pub proof fn lemma_enter_quit_round_trip(b: BarV)
    requires
        nav_ok(FocusOn::MainPanel, b),
    ensures
        ({
            let s1 = nav_step(FocusOn::MainPanel, b, EventResult::EnterMenuBar);
            let s2 = nav_step(s1.focus, s1.bar, EventResult::QuitMenu);
            &&& s1.chosen is None
            &&& s2.chosen is None
            &&& s2.focus == FocusOn::MainPanel
            &&& s2.bar.tabs == b.tabs
            &&& (b.focus_on == 0 ==> s2.bar == b)
        }),
{
    let s1 = nav_step(FocusOn::MainPanel, b, EventResult::EnterMenuBar);
    let s2 = nav_step(s1.focus, s1.bar, EventResult::QuitMenu);
    assert forall|k: int| 0 <= k < s2.bar.tabs.len() implies #[trigger] s2.bar.tabs[k]
        == b.tabs[k] by {
        assert(node_clear(b.tabs[k]));
        if k == 0 {
            crate::state::lemma_clear_node_flags_irrelevant(
                s1.bar.tabs[0],
                b.tabs[0],
            );
            crate::state::lemma_clear_node_identity(b.tabs[0]);
        } else {
            assert(s1.bar.tabs[k] == b.tabs[k]);
            crate::state::lemma_clear_node_identity(b.tabs[k]);
        }
    }
    assert(s2.bar.tabs =~= b.tabs);
}

} // verus!
