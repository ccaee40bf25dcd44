use menu_nav::app::{App, AppState, UiState};
use menu_nav::error::MenuError;
use menu_nav::events::EventResult;
use menu_nav::focus::{FocusOn, Menu};
use menu_nav::menu_bar::{build, handle_event, init_menu_bar_state, MenuTabDef};

#[test]
fn initial_state_has_expected_shape() {
    let bar = init_menu_bar_state();
    assert_eq!(bar.focus_on, 0);
    assert_eq!(bar.tab_state.len(), 4);
    let sizes = [6, 2, 2, 2];
    for (t, want) in bar.tab_state.iter().zip(sizes) {
        assert!(!t.is_focused && !t.is_selected && !t.is_disabled);
        assert_eq!(t.focus_on, 0);
        assert_eq!(t.sub_item_state.as_ref().unwrap().len(), want);
        for i in t.sub_item_state.as_ref().unwrap() {
            assert!(!i.is_focused && !i.is_selected);
            assert!(i.sub_item_state.is_none());
        }
    }
    // The disabled pattern mirrors which actions are wired up.
    let file_disabled: Vec<bool> = bar.tab_state[0]
        .sub_item_state
        .as_ref()
        .unwrap()
        .iter()
        .map(|i| i.is_disabled)
        .collect();
    assert_eq!(file_disabled, vec![false, false, true, true, true, false]);
    let help_disabled: Vec<bool> = bar.tab_state[3]
        .sub_item_state
        .as_ref()
        .unwrap()
        .iter()
        .map(|i| i.is_disabled)
        .collect();
    assert_eq!(help_disabled, vec![true, false]);
}

#[test]
fn build_rejects_an_empty_definition() {
    let def: Vec<MenuTabDef> = Vec::new();
    let r = build(&def);
    assert_eq!(r.err(), Some(MenuError::EmptyMenuDefinition));
}

#[test]
fn build_lays_out_the_given_tabs() {
    let def = vec![
        MenuTabDef { disabled: false, item_disabled: vec![false, true] },
        MenuTabDef { disabled: true, item_disabled: vec![] },
    ];
    let bar = build(&def).unwrap();
    assert_eq!(bar.focus_on, 0);
    assert_eq!(bar.tab_state.len(), 2);
    assert!(!bar.tab_state[0].is_disabled);
    assert!(bar.tab_state[1].is_disabled);
    let items = bar.tab_state[0].sub_item_state.as_ref().unwrap();
    assert_eq!(items.len(), 2);
    assert!(!items[0].is_disabled);
    assert!(items[1].is_disabled);
    assert_eq!(bar.tab_state[1].sub_item_state.as_ref().unwrap().len(), 0);
}

#[test]
fn choose_on_childless_tab_emits_its_index() {
    // A tab with an empty item list is a leaf: Choose at tab level
    // hands off the one-hop path and stays at tab level, unselected.
    let def = vec![
        MenuTabDef { disabled: false, item_disabled: vec![] },
        MenuTabDef { disabled: false, item_disabled: vec![false] },
    ];
    let mut bar = build(&def).unwrap();
    let mut focus = FocusOn::MainPanel;
    handle_event(&mut focus, &mut bar, EventResult::EnterMenuBar);
    let r = handle_event(&mut focus, &mut bar, EventResult::MenuChoose);
    assert_eq!(r, Some(vec![0]));
    assert_eq!(focus, FocusOn::MenuBar(Menu::Tab));
    assert!(!bar.tab_state[0].is_selected);
    assert!(bar.tab_state[0].is_focused);
}

#[test]
fn accessors_reach_each_node() {
    let bar = init_menu_bar_state();
    assert!(!bar.tab(3).is_disabled);
    assert!(bar.item(0, 2).is_disabled);
    assert!(!bar.item(0, 5).is_disabled);
}

#[test]
fn reset_clears_flags_and_keeps_indices() {
    let mut bar = init_menu_bar_state();
    let mut focus = FocusOn::MainPanel;
    handle_event(&mut focus, &mut bar, EventResult::EnterMenuBar);
    handle_event(&mut focus, &mut bar, EventResult::MenuChoose);
    handle_event(&mut focus, &mut bar, EventResult::MenuNextItem);
    bar.reset_all_focus_and_selection();
    for t in &bar.tab_state {
        assert!(!t.is_focused && !t.is_selected);
    }
    assert_eq!(bar.tab_state[0].focus_on, 1);
}

#[test]
fn app_starts_running_and_quits_on_quit() {
    let mut app = App::default();
    assert!(app.is_running());
    assert_eq!(app.running_state, AppState::Running);
    assert_eq!(app.ui_state.current_mode(), FocusOn::MainPanel);

    // A tick without an event changes nothing.
    let r = app.handle_events((false, EventResult::MenuChoose));
    assert!(r.is_none());
    assert!(app.is_running());
    assert_eq!(app.ui_state.current_mode(), FocusOn::MainPanel);

    // Menu events run the engine.
    let r = app.handle_events((true, EventResult::EnterMenuBar));
    assert!(r.is_none());
    assert_eq!(app.ui_state.current_mode(), FocusOn::MenuBar(Menu::Tab));
    assert!(app.is_running());

    // Quit stops the application and leaves the menu state alone.
    let r = app.handle_events((true, EventResult::Quit));
    assert!(r.is_none());
    assert!(!app.is_running());
    assert_eq!(app.ui_state.current_mode(), FocusOn::MenuBar(Menu::Tab));
}

#[test]
fn default_event_is_the_tick() {
    assert_eq!(EventResult::default(), EventResult::NoEvent);
}

#[test]
fn validate_accepts_consistent_and_rejects_corrupted_state() {
    let mut app = App::default();
    assert!(app.ui_state.validate().is_ok());
    app.handle_events((true, EventResult::EnterMenuBar));
    app.handle_events((true, EventResult::MenuChoose));
    assert!(app.ui_state.validate().is_ok());

    // Forging a second selected tab breaks the cursor invariant.
    app.ui_state.menu_bar_state.tab_state[2].is_selected = true;
    let r = app.ui_state.validate();
    assert_eq!(r.err(), Some(MenuError::InconsistentCursorState));

    // A mode that points past the real chain is inconsistent too.
    let mut plain = UiState {
        focus_on: FocusOn::MenuBar(Menu::TabItem(3)),
        menu_bar_state: init_menu_bar_state(),
    };
    assert!(plain.validate().is_err());
    plain.focus_on = FocusOn::MainPanel;
    assert!(plain.validate().is_ok());
}

#[test]
fn error_messages_name_the_fault() {
    assert_eq!(MenuError::EmptyMenuDefinition.message(), "menu definition has no tabs");
    assert_eq!(
        MenuError::InconsistentCursorState.message(),
        "cursor state does not match the menu tree"
    );
}

#[test]
fn checker_agrees_with_the_engine_along_a_session() {
    // The cursor invariant holds in the initial state and after every
    // command of a long mixed session.
    let mut app = App::default();
    let session = [
        EventResult::EnterMenuBar,
        EventResult::MenuNextItem,
        EventResult::MenuNextItem,
        EventResult::MenuPrevItem,
        EventResult::MenuChoose,
        EventResult::MenuNextItem,
        EventResult::MenuChoose,
        EventResult::MenuPrevItem,
        EventResult::PrevMenuLevel,
        EventResult::MenuNextItem,
        EventResult::MenuChoose,
        EventResult::NoEvent,
        EventResult::QuitMenu,
        EventResult::EnterMenuBar,
        EventResult::MenuChoose,
        EventResult::QuitMenu,
    ];
    assert!(app.ui_state.validate().is_ok());
    for e in session {
        app.handle_events((true, e));
        assert!(app.ui_state.validate().is_ok());
    }
    assert_eq!(app.ui_state.current_mode(), FocusOn::MainPanel);
}
