use menu_nav::events::EventResult;
use menu_nav::focus::{FocusOn, Menu};
use menu_nav::menu_bar::{handle_event, init_menu_bar_state};
use menu_nav::state::{MenuBarUiState, MenuTabItemUiState, MenuTabUiState};

#[test]
fn scenario_enter_move_choose_move_back() {
    // Four tabs, tab 0 with six items: EnterMenu, MoveNext, MoveNext,
    // Choose, MoveNext, Back.
    let mut bar = init_menu_bar_state();
    let mut focus = FocusOn::MainPanel;

    let r = handle_event(&mut focus, &mut bar, EventResult::EnterMenuBar);
    assert!(r.is_none());
    assert_eq!(focus, FocusOn::MenuBar(Menu::Tab));
    assert_eq!(bar.focus_on, 0);
    assert!(bar.tab_state[0].is_focused);

    let r = handle_event(&mut focus, &mut bar, EventResult::MenuNextItem);
    assert!(r.is_none());
    let r = handle_event(&mut focus, &mut bar, EventResult::MenuNextItem);
    assert!(r.is_none());
    assert_eq!(bar.focus_on, 2);
    assert!(bar.tab_state[2].is_focused);
    assert!(!bar.tab_state[0].is_focused);

    // Choose opens tab 2: item level 0, tab 2 selected, its item 0 focused.
    let r = handle_event(&mut focus, &mut bar, EventResult::MenuChoose);
    assert!(r.is_none());
    assert_eq!(focus, FocusOn::MenuBar(Menu::TabItem(0)));
    assert!(bar.tab_state[2].is_selected);
    assert!(bar.tab_state[2].is_focused);
    assert_eq!(bar.tab_state[2].focus_on, 0);
    assert!(bar.tab_state[2].sub_item_state.as_ref().unwrap()[0].is_focused);

    // MoveNext focuses item 1.
    let r = handle_event(&mut focus, &mut bar, EventResult::MenuNextItem);
    assert!(r.is_none());
    assert_eq!(bar.tab_state[2].focus_on, 1);
    assert!(bar.tab_state[2].sub_item_state.as_ref().unwrap()[1].is_focused);
    assert!(!bar.tab_state[2].sub_item_state.as_ref().unwrap()[0].is_focused);

    // Back returns to tab level: tab 2 deselected but still focused.
    let r = handle_event(&mut focus, &mut bar, EventResult::PrevMenuLevel);
    assert!(r.is_none());
    assert_eq!(focus, FocusOn::MenuBar(Menu::Tab));
    assert!(!bar.tab_state[2].is_selected);
    assert!(bar.tab_state[2].is_focused);
    assert!(!bar.tab_state[2].sub_item_state.as_ref().unwrap()[1].is_focused);
}

#[test]
fn move_prev_clamps_at_first_tab() {
    let mut bar = init_menu_bar_state();
    let mut focus = FocusOn::MainPanel;
    handle_event(&mut focus, &mut bar, EventResult::EnterMenuBar);
    assert_eq!(bar.focus_on, 0);
    // Repeating MovePrev at index 0 never changes the index.
    for _ in 0..3 {
        let r = handle_event(&mut focus, &mut bar, EventResult::MenuPrevItem);
        assert!(r.is_none());
        assert_eq!(bar.focus_on, 0);
        assert!(bar.tab_state[0].is_focused);
        assert_eq!(focus, FocusOn::MenuBar(Menu::Tab));
    }
}

#[test]
fn move_next_clamps_at_last_tab() {
    let mut bar = init_menu_bar_state();
    let mut focus = FocusOn::MainPanel;
    handle_event(&mut focus, &mut bar, EventResult::EnterMenuBar);
    for _ in 0..10 {
        handle_event(&mut focus, &mut bar, EventResult::MenuNextItem);
    }
    assert_eq!(bar.focus_on, 3);
    assert!(bar.tab_state[3].is_focused);
    for k in 0..3 {
        assert!(!bar.tab_state[k].is_focused);
    }
}

#[test]
fn move_clamps_at_item_boundaries() {
    let mut bar = init_menu_bar_state();
    let mut focus = FocusOn::MainPanel;
    handle_event(&mut focus, &mut bar, EventResult::EnterMenuBar);
    handle_event(&mut focus, &mut bar, EventResult::MenuChoose);
    assert_eq!(focus, FocusOn::MenuBar(Menu::TabItem(0)));
    // Down past the last of the six items clamps at index 5.
    for _ in 0..9 {
        handle_event(&mut focus, &mut bar, EventResult::MenuNextItem);
    }
    assert_eq!(bar.tab_state[0].focus_on, 5);
    assert!(bar.tab_state[0].sub_item_state.as_ref().unwrap()[5].is_focused);
    // Up past the first clamps at index 0.
    for _ in 0..9 {
        handle_event(&mut focus, &mut bar, EventResult::MenuPrevItem);
    }
    assert_eq!(bar.tab_state[0].focus_on, 0);
    assert!(bar.tab_state[0].sub_item_state.as_ref().unwrap()[0].is_focused);
    assert!(!bar.tab_state[0].sub_item_state.as_ref().unwrap()[5].is_focused);
}

#[test]
fn quit_menu_clears_every_flag() {
    let mut bar = init_menu_bar_state();
    let mut focus = FocusOn::MainPanel;
    handle_event(&mut focus, &mut bar, EventResult::EnterMenuBar);
    handle_event(&mut focus, &mut bar, EventResult::MenuNextItem);
    handle_event(&mut focus, &mut bar, EventResult::MenuChoose);
    handle_event(&mut focus, &mut bar, EventResult::MenuNextItem);
    assert_eq!(focus, FocusOn::MenuBar(Menu::TabItem(0)));

    let r = handle_event(&mut focus, &mut bar, EventResult::QuitMenu);
    assert!(r.is_none());
    assert_eq!(focus, FocusOn::MainPanel);
    for t in &bar.tab_state {
        assert!(!t.is_focused);
        assert!(!t.is_selected);
        for i in t.sub_item_state.as_ref().unwrap() {
            assert!(!i.is_focused);
            assert!(!i.is_selected);
        }
    }
    // Focus indices survive the reset.
    assert_eq!(bar.focus_on, 1);
    assert_eq!(bar.tab_state[1].focus_on, 1);
}

#[test]
fn choose_on_leaf_item_emits_path_and_pops() {
    let mut bar = init_menu_bar_state();
    let mut focus = FocusOn::MainPanel;
    handle_event(&mut focus, &mut bar, EventResult::EnterMenuBar);
    handle_event(&mut focus, &mut bar, EventResult::MenuChoose);
    handle_event(&mut focus, &mut bar, EventResult::MenuNextItem);
    assert_eq!(focus, FocusOn::MenuBar(Menu::TabItem(0)));

    // Item 1 of tab 0 has no children: Choose hands its path off.
    let r = handle_event(&mut focus, &mut bar, EventResult::MenuChoose);
    assert_eq!(r, Some(vec![0, 1]));
    // The mode stays one level above the would-be branch and the item
    // is focused, not selected.
    assert_eq!(focus, FocusOn::MenuBar(Menu::TabItem(0)));
    let item = &bar.tab_state[0].sub_item_state.as_ref().unwrap()[1];
    assert!(item.is_focused);
    assert!(!item.is_selected);
    assert!(bar.tab_state[0].is_selected);
}

#[test]
fn enter_then_quit_round_trips_the_tree() {
    let mut bar = init_menu_bar_state();
    let mut focus = FocusOn::MainPanel;
    handle_event(&mut focus, &mut bar, EventResult::EnterMenuBar);
    handle_event(&mut focus, &mut bar, EventResult::QuitMenu);
    assert_eq!(focus, FocusOn::MainPanel);
    assert_eq!(bar.focus_on, 0);
    for t in &bar.tab_state {
        assert!(!t.is_focused);
        assert!(!t.is_selected);
        assert_eq!(t.focus_on, 0);
        for i in t.sub_item_state.as_ref().unwrap() {
            assert!(!i.is_focused);
            assert!(!i.is_selected);
            assert_eq!(i.focus_on, 0);
        }
    }
}

#[test]
fn commands_outside_their_mode_are_noops() {
    let mut bar = init_menu_bar_state();
    let mut focus = FocusOn::MainPanel;
    // In the main panel only EnterMenuBar means anything.
    for e in [
        EventResult::QuitMenu,
        EventResult::MenuNextItem,
        EventResult::MenuPrevItem,
        EventResult::MenuChoose,
        EventResult::PrevMenuLevel,
        EventResult::NoEvent,
        EventResult::Quit,
    ] {
        let r = handle_event(&mut focus, &mut bar, e);
        assert!(r.is_none());
        assert_eq!(focus, FocusOn::MainPanel);
        assert!(!bar.tab_state[0].is_focused);
    }
    // At tab level, EnterMenuBar and Back mean nothing.
    handle_event(&mut focus, &mut bar, EventResult::EnterMenuBar);
    for e in [EventResult::EnterMenuBar, EventResult::PrevMenuLevel] {
        let r = handle_event(&mut focus, &mut bar, e);
        assert!(r.is_none());
        assert_eq!(focus, FocusOn::MenuBar(Menu::Tab));
        assert_eq!(bar.focus_on, 0);
        assert!(bar.tab_state[0].is_focused);
    }
}

#[test]
fn nested_items_generalize_the_depth_zero_rules() {
    // A hand-built tree with one tab whose first item has two
    // sub-items, exercising item level 1 with the same rules as
    // level 0.
    let leaf = |disabled: bool| MenuTabItemUiState {
        is_focused: false,
        focus_on: 0,
        is_disabled: disabled,
        is_selected: false,
        sub_item_state: None,
    };
    let branch = MenuTabItemUiState {
        is_focused: false,
        focus_on: 0,
        is_disabled: false,
        is_selected: false,
        sub_item_state: Some(vec![leaf(false), leaf(false)]),
    };
    let tab = MenuTabUiState {
        is_focused: false,
        focus_on: 0,
        is_disabled: false,
        is_selected: false,
        sub_item_state: Some(vec![branch, leaf(false)]),
    };
    let mut bar = MenuBarUiState { focus_on: 0, tab_state: vec![tab] };
    let mut focus = FocusOn::MainPanel;

    handle_event(&mut focus, &mut bar, EventResult::EnterMenuBar);
    handle_event(&mut focus, &mut bar, EventResult::MenuChoose);
    assert_eq!(focus, FocusOn::MenuBar(Menu::TabItem(0)));

    // Choosing the branch item descends to item level 1.
    let r = handle_event(&mut focus, &mut bar, EventResult::MenuChoose);
    assert!(r.is_none());
    assert_eq!(focus, FocusOn::MenuBar(Menu::TabItem(1)));
    {
        let b = &bar.tab_state[0].sub_item_state.as_ref().unwrap()[0];
        assert!(b.is_selected);
        assert!(b.is_focused);
        assert!(b.sub_item_state.as_ref().unwrap()[0].is_focused);
    }

    // Moves act on the sub-items.
    handle_event(&mut focus, &mut bar, EventResult::MenuNextItem);
    {
        let b = &bar.tab_state[0].sub_item_state.as_ref().unwrap()[0];
        assert_eq!(b.focus_on, 1);
        assert!(b.sub_item_state.as_ref().unwrap()[1].is_focused);
    }

    // Choosing a leaf sub-item emits the full three-hop path.
    let r = handle_event(&mut focus, &mut bar, EventResult::MenuChoose);
    assert_eq!(r, Some(vec![0, 0, 1]));
    assert_eq!(focus, FocusOn::MenuBar(Menu::TabItem(1)));

    // Back pops to item level 0: the branch is deselected, focused.
    handle_event(&mut focus, &mut bar, EventResult::PrevMenuLevel);
    assert_eq!(focus, FocusOn::MenuBar(Menu::TabItem(0)));
    {
        let b = &bar.tab_state[0].sub_item_state.as_ref().unwrap()[0];
        assert!(!b.is_selected);
        assert!(b.is_focused);
        assert!(!b.sub_item_state.as_ref().unwrap()[1].is_focused);
    }

    // Quit from the nested state clears everything.
    handle_event(&mut focus, &mut bar, EventResult::QuitMenu);
    assert_eq!(focus, FocusOn::MainPanel);
    let t = &bar.tab_state[0];
    assert!(!t.is_focused && !t.is_selected);
    let b = &t.sub_item_state.as_ref().unwrap()[0];
    assert!(!b.is_focused && !b.is_selected);
    for i in b.sub_item_state.as_ref().unwrap() {
        assert!(!i.is_focused && !i.is_selected);
    }
}
