//! The menu tree: per-node UI state records, their ghost view, and the
//! well-formedness predicate that the navigation engine maintains.
//!
//! The shape of the tree (which node has which children) is fixed once
//! it is built; only the per-node flags (`is_focused`, `is_selected`)
//! and the focus indices mutate afterwards. Labels and hotkeys are a
//! rendering concern and live with the renderer, not in these records.

use vstd::prelude::*;

use crate::focus::{FocusOn, Menu};

verus! {

/// UI state of one menu item, at any nesting depth below a tab.
///
/// `sub_item_state` is `None` or an empty vector for a leaf item;
/// `focus_on` is only meaningful while the item's branch is open.
pub struct MenuTabItemUiState {
    pub is_focused: bool,
    pub focus_on: usize,
    pub is_disabled: bool,
    pub is_selected: bool,
    pub sub_item_state: Option<Vec<MenuTabItemUiState>>,
}

/// UI state of one top-level menu tab.
pub struct MenuTabUiState {
    pub is_focused: bool,
    pub focus_on: usize,
    pub is_disabled: bool,
    pub is_selected: bool,
    pub sub_item_state: Option<Vec<MenuTabItemUiState>>,
}

/// UI state of the whole menu bar: the ordered tabs and the index of
/// the tab that currently carries the focus (meaningful only while the
/// menu is active).
pub struct MenuBarUiState {
    pub focus_on: usize,
    pub tab_state: Vec<MenuTabUiState>,
}

/// The children of an item, as a sequence (empty when absent).
pub open spec fn item_kids(n: MenuTabItemUiState) -> Seq<MenuTabItemUiState> {
    match n.sub_item_state {
        Some(v) => v@,
        None => Seq::empty(),
    }
}

/// The children of a tab, as a sequence (empty when absent).
pub open spec fn tab_kids(t: MenuTabUiState) -> Seq<MenuTabItemUiState> {
    match t.sub_item_state {
        Some(v) => v@,
        None => Seq::empty(),
    }
}

/// Ghost mirror of one menu node. Tabs and items look alike here, so
/// every rule about focus and selection is stated once, over this type.
pub struct NodeV {
    pub focused: bool,
    pub selected: bool,
    pub disabled: bool,
    pub focus_on: usize,
    pub kids: Seq<NodeV>,
}

/// Ghost mirror of the whole menu bar.
pub struct BarV {
    pub focus_on: usize,
    pub tabs: Seq<NodeV>,
}

/// The ghost view of an item and of everything below it.
pub open spec fn item_v(n: MenuTabItemUiState) -> NodeV
    decreases n,
{
    NodeV {
        focused: n.is_focused,
        selected: n.is_selected,
        disabled: n.is_disabled,
        focus_on: n.focus_on,
        kids: Seq::new(
            item_kids(n).len(),
            |i: int|
                if 0 <= i < item_kids(n).len() {
                    item_v(item_kids(n)[i])
                } else {
                    arbitrary()
                },
        ),
    }
}

/// The ghost view of a tab and of everything below it.
pub open spec fn tab_v(t: MenuTabUiState) -> NodeV {
    NodeV {
        focused: t.is_focused,
        selected: t.is_selected,
        disabled: t.is_disabled,
        focus_on: t.focus_on,
        kids: Seq::new(tab_kids(t).len(), |i: int| item_v(tab_kids(t)[i])),
    }
}

/// The ghost view of the whole menu bar.
pub open spec fn bar_v(b: MenuBarUiState) -> BarV {
    BarV {
        focus_on: b.focus_on,
        tabs: Seq::new(b.tab_state@.len(), |i: int| tab_v(b.tab_state@[i])),
    }
}

impl View for MenuTabItemUiState {
    type V = NodeV;

    open spec fn view(&self) -> NodeV {
        item_v(*self)
    }
}

impl View for MenuTabUiState {
    type V = NodeV;

    open spec fn view(&self) -> NodeV {
        tab_v(*self)
    }
}

impl View for MenuBarUiState {
    type V = BarV;

    open spec fn view(&self) -> BarV {
        bar_v(*self)
    }
}

/// No flag is set anywhere in the node's subtree.
pub open spec fn node_clear(n: NodeV) -> bool
    decreases n,
{
    &&& !n.focused
    &&& !n.selected
    &&& forall|i: int| 0 <= i < n.kids.len() ==> node_clear(#[trigger] n.kids[i])
}

/// No flag is set anywhere in the whole tree.
pub open spec fn bar_clear(b: BarV) -> bool {
    forall|i: int| 0 <= i < b.tabs.len() ==> node_clear(#[trigger] b.tabs[i])
}

/// The active chain that starts at node `n` and runs `d` more levels
/// down: every node on the chain is focused; all but the last are also
/// selected, with their focus index pointing at the next chain node;
/// the last is not selected; and every node off the chain is clear.
pub open spec fn open_path_ok(n: NodeV, d: nat) -> bool
    decreases d,
{
    if d == 0 {
        &&& n.focused
        &&& !n.selected
        &&& forall|i: int| 0 <= i < n.kids.len() ==> node_clear(#[trigger] n.kids[i])
    } else {
        &&& n.focused
        &&& n.selected
        &&& n.focus_on < n.kids.len()
        &&& forall|i: int|
            0 <= i < n.kids.len() && i != n.focus_on ==> node_clear(#[trigger] n.kids[i])
        &&& open_path_ok(n.kids[n.focus_on as int], (d - 1) as nat)
    }
}

/// The chain conditions one level up from [`open_path_ok`]: `n`'s own
/// flags are not constrained, but its focus index is in range, every
/// child off the chain is clear, and the chain below the focused child
/// runs `d` more levels. The tabs row satisfies exactly this while the
/// menu is active.
pub open spec fn row_path_ok(n: NodeV, d: nat) -> bool {
    &&& n.focus_on < n.kids.len()
    &&& forall|i: int|
        0 <= i < n.kids.len() && i != n.focus_on ==> node_clear(#[trigger] n.kids[i])
    &&& open_path_ok(n.kids[n.focus_on as int], d)
}

/// The length of the active chain for a mode: no chain in the main
/// panel, the focused tab alone at tab level, and `d + 2` chain nodes
/// (the tab plus items at levels `0 ..= d`) at item level `d`.
pub open spec fn mode_depth(f: FocusOn) -> nat {
    match f {
        FocusOn::MainPanel => 0,
        FocusOn::MenuBar(Menu::Tab) => 0,
        FocusOn::MenuBar(Menu::TabItem(d)) => d as nat + 1,
    }
}

/// The engine's invariant: the recorded mode and the flags in the tree
/// agree. In `MainPanel` every flag is clear. In `Tab` the tab at
/// `b.focus_on` carries the focus and nothing else is set. In
/// `TabItem(d)` that tab heads an active chain that reaches item level
/// `d`. Off the active chain no flag is ever set, and the tree always
/// has at least one tab.
pub open spec fn nav_ok(f: FocusOn, b: BarV) -> bool {
    &&& b.tabs.len() >= 1
    &&& match f {
        FocusOn::MainPanel => bar_clear(b),
        FocusOn::MenuBar(_) => {
            &&& b.focus_on < b.tabs.len()
            &&& open_path_ok(b.tabs[b.focus_on as int], mode_depth(f))
            &&& forall|i: int|
                0 <= i < b.tabs.len() && i != b.focus_on ==> node_clear(#[trigger] b.tabs[i])
        },
    }
}

/// `n` with every `is_focused` / `is_selected` flag in its subtree
/// turned off; the shape, the focus indices and `disabled` stay.
pub open spec fn clear_node(n: NodeV) -> NodeV
    decreases n,
{
    NodeV {
        focused: false,
        selected: false,
        kids: Seq::new(
            n.kids.len(),
            |i: int| if 0 <= i < n.kids.len() { clear_node(n.kids[i]) } else { arbitrary() },
        ),
        ..n
    }
}

/// The whole tree with every flag turned off; focus indices stay.
pub open spec fn clear_bar(b: BarV) -> BarV {
    BarV { focus_on: b.focus_on, tabs: Seq::new(b.tabs.len(), |i: int| clear_node(b.tabs[i])) }
}

/// Clearing leaves no flag set anywhere.
pub proof fn lemma_clear_node_clear(n: NodeV)
    ensures
        node_clear(clear_node(n)),
    decreases n,
{
    assert forall|i: int| 0 <= i < clear_node(n).kids.len() implies node_clear(
        #[trigger] clear_node(n).kids[i],
    ) by {
        lemma_clear_node_clear(n.kids[i]);
    }
}

/// Clearing an already clear node changes nothing.
pub proof fn lemma_clear_node_identity(n: NodeV)
    requires
        node_clear(n),
    ensures
        clear_node(n) == n,
    decreases n,
{
    assert forall|i: int| 0 <= i < n.kids.len() implies #[trigger] clear_node(n).kids[i]
        == n.kids[i] by {
        lemma_clear_node_identity(n.kids[i]);
    }
    assert(clear_node(n).kids =~= n.kids);
}

/// Clears the flags of every item in `v`, depth first.
fn reset_items(v: &mut Vec<MenuTabItemUiState>)
    ensures
        final(v)@.len() == old(v)@.len(),
        forall|i: int|
            0 <= i < old(v)@.len() ==> #[trigger] item_v(final(v)@[i]) == clear_node(
                item_v(old(v)@[i]),
            ),
    decreases *old(v),
{
    let n = v.len();
    let mut k: usize = 0;
    while k < n
        invariant
            n == old(v)@.len(),
            k <= n,
            v@.len() == n,
            forall|i: int| k <= i < n ==> v@[i] == #[trigger] old(v)@[i],
            forall|i: int|
                0 <= i < k ==> #[trigger] item_v(v@[i]) == clear_node(item_v(old(v)@[i])),
        decreases n - k,
    {
        proof {
            assert(v@[k as int] == old(v)@[k as int]);
            assert(decreases_to!(*old(v) => old(v)@[k as int]));
        }
        reset_item(&mut v[k]);
        k = k + 1;
    }
}

/// Clears `is_focused` and `is_selected` on this item and on every
/// item below it; the shape and the focus indices stay.
fn reset_item(n: &mut MenuTabItemUiState)
    ensures
        item_v(*final(n)) == clear_node(item_v(*old(n))),
    decreases *old(n),
{
    n.is_focused = false;
    n.is_selected = false;
    let kids = n.sub_item_state.take();
    match kids {
        Some(mut v) => {
            proof {
                assert(decreases_to!(*old(n) => v));
            }
            reset_items(&mut v);
            n.sub_item_state = Some(v);
        },
        None => {},
    }
    proof {
        let ko = item_kids(*old(n));
        let kc = item_kids(*n);
        assert(kc.len() == ko.len());
        assert forall|i: int| 0 <= i < ko.len() implies item_v(kc[i]) == clear_node(
            item_v(ko[i]),
        ) by {}
        assert forall|i: int| 0 <= i < ko.len() implies item_v(*n).kids[i] == clear_node(
            item_v(*old(n)),
        ).kids[i] by {
            assert(item_v(*n).kids[i] == item_v(kc[i]));
            assert(clear_node(item_v(*old(n))).kids[i] == clear_node(item_v(*old(n)).kids[i]));
            assert(item_v(*old(n)).kids[i] == item_v(ko[i]));
        }
        assert(item_v(*n).kids =~= clear_node(item_v(*old(n))).kids);
    }
}

impl MenuBarUiState {
    /// The tab at position `i`. Indices come from the engine itself,
    /// so an out-of-range index is a programming error and is ruled
    /// out up front.
    pub fn tab(&self, i: usize) -> (r: &MenuTabUiState)
        requires
            i < self.tab_state@.len(),
        ensures
            *r == self.tab_state@[i as int],
    {
        &self.tab_state[i]
    }

    /// The item at position `item_i` of the tab at `tab_i`.
    pub fn item(&self, tab_i: usize, item_i: usize) -> (r: &MenuTabItemUiState)
        requires
            tab_i < self.tab_state@.len(),
            item_i < tab_kids(self.tab_state@[tab_i as int]).len(),
        ensures
            *r == tab_kids(self.tab_state@[tab_i as int])[item_i as int],
    {
        let v = self.tab_state[tab_i].sub_item_state.as_ref().unwrap();
        &v[item_i]
    }

    /// Clears `is_focused` and `is_selected` on every node of the
    /// tree, depth first, so that no stale flag survives at any level;
    /// the focus indices are kept. Used when fully leaving the menu.
    pub fn reset_all_focus_and_selection(&mut self)
        ensures
            final(self)@ == clear_bar(old(self)@),
    {
        let n = self.tab_state.len();
        let mut k: usize = 0;
        while k < n
            invariant
                n == old(self).tab_state@.len(),
                k <= n,
                self.tab_state@.len() == n,
                self.focus_on == old(self).focus_on,
                forall|i: int| k <= i < n ==> self.tab_state@[i] == #[trigger] old(self).tab_state@[i],
                forall|i: int|
                    0 <= i < k ==> #[trigger] tab_v(self.tab_state@[i]) == clear_node(
                        tab_v(old(self).tab_state@[i]),
                    ),
            decreases n - k,
        {
            let t = &mut self.tab_state[k];
            t.is_focused = false;
            t.is_selected = false;
            let kids = t.sub_item_state.take();
            match kids {
                Some(mut v) => {
                    reset_items(&mut v);
                    t.sub_item_state = Some(v);
                },
                None => {},
            }
            proof {
                assert(tab_v(self.tab_state@[k as int]).kids =~= clear_node(
                    tab_v(old(self).tab_state@[k as int]),
                ).kids);
            }
            k = k + 1;
        }
        proof {
            assert(bar_v(*self).tabs =~= clear_bar(bar_v(*old(self))).tabs);
        }
    }
}

/// The view of an item is determined field by field: two items with
/// the same children value differ in their views only in the copied
/// scalar fields.
pub proof fn lemma_item_v_fields(o: MenuTabItemUiState, n: MenuTabItemUiState)
    requires
        n.sub_item_state == o.sub_item_state,
    ensures
        item_v(n) == (NodeV {
            focused: n.is_focused,
            selected: n.is_selected,
            disabled: n.is_disabled,
            focus_on: n.focus_on,
            kids: item_v(o).kids,
        }),
{
    assert(item_v(n).kids =~= item_v(o).kids);
}

/// The same, for a tab.
pub proof fn lemma_tab_v_fields(o: MenuTabUiState, n: MenuTabUiState)
    requires
        n.sub_item_state == o.sub_item_state,
    ensures
        tab_v(n) == (NodeV {
            focused: n.is_focused,
            selected: n.is_selected,
            disabled: n.is_disabled,
            focus_on: n.focus_on,
            kids: tab_v(o).kids,
        }),
{
    assert(tab_v(n).kids =~= tab_v(o).kids);
}

/// Clearing ignores the node's own flags: nodes that differ only in
/// them clear to the same node.
pub proof fn lemma_clear_node_flags_irrelevant(a: NodeV, b: NodeV)
    requires
        a.kids == b.kids,
        a.disabled == b.disabled,
        a.focus_on == b.focus_on,
    ensures
        clear_node(a) == clear_node(b),
{
    assert(clear_node(a).kids =~= clear_node(b).kids);
}

} // verus!
