use transport_io::ui::toolbar::press_step;
use transport_io::map::build::BuildAction;
use transport_io::map::{GameMap, Position, Unlocked};
use transport_io::scene::level_select::LevelSelect;
use transport_io::tileset::Sprite;
use transport_io::ui::menu::{Menu, MenuItem};
use transport_io::ui::popup::Popup;
use transport_io::ui::view_build::{
    build_action_for, build_toolbar_items, edit_action_items, update_build_err, BuildActions, BuildErrorMsg,
    BuildMode, BUILD_ERROR_TIME,
};
use transport_io::ui::{MouseEvent, MouseState};
use transport_io::map::build::BuildError;

#[test]
fn toolbar_follows_unlocks() {
    let modes = |u| build_toolbar_items(u).into_iter().map(|i| i.value).collect::<Vec<_>>();
    assert_eq!(modes(Unlocked::Roads), vec![BuildMode::TwoWayRoad, BuildMode::Clear]);
    assert_eq!(modes(Unlocked::Bridges), vec![BuildMode::TwoWayRoad, BuildMode::Bridge, BuildMode::Clear]);
    assert_eq!(
        modes(Unlocked::All),
        vec![BuildMode::TwoWayRoad, BuildMode::OneWayRoad, BuildMode::Bridge, BuildMode::Clear]
    );
    assert_eq!(build_toolbar_items(Unlocked::Roads)[1].shortcut, '5');
    assert_eq!(build_toolbar_items(Unlocked::Roads)[0].sprite, Sprite::new(8, 0));
    let edits: Vec<BuildActions> = edit_action_items().into_iter().map(|i| i.value).collect();
    assert_eq!(edits, vec![BuildActions::Undo, BuildActions::Redo, BuildActions::Copy, BuildActions::Paste]);
}

#[test]
fn build_error_fades() {
    let mut err = Some(BuildErrorMsg { pos: Position::new(0, 0), err: BuildError::InvalidTile, time: 0 });
    for _ in 0..BUILD_ERROR_TIME {
        update_build_err(&mut err);
    }
    assert_eq!(err.unwrap().time, BUILD_ERROR_TIME);
    update_build_err(&mut err);
    assert!(err.is_none());
}

#[test]
fn drag_builds_actions() {
    let map = GameMap::new_blank((8, 8));
    assert!(build_action_for(None, Some(Position::new(0, 0)), Position::new(2, 0), &map).is_none());
    assert!(build_action_for(Some(BuildMode::TwoWayRoad), None, Position::new(2, 0), &map).is_none());
    match build_action_for(Some(BuildMode::TwoWayRoad), Some(Position::new(0, 0)), Position::new(3, 0), &map) {
        Some(BuildAction::List(list)) => assert!(!list.list.is_empty()),
        _ => panic!("expected a road"),
    }
    assert!(build_action_for(Some(BuildMode::Clear), Some(Position::new(0, 0)), Position::new(2, 2), &map).is_none());
}

#[test]
fn mouse_press_release_and_motion() {
    let mut state = MouseState::new();
    let p = Position::new(1, 1);
    assert_eq!(state.step(p, true, true), vec![MouseEvent::Down(p), MouseEvent::Motion(p)]);
    assert_eq!(state.step(p, true, true), vec![]);
    let q = Position::new(2, 1);
    assert_eq!(state.step(q, true, false), vec![MouseEvent::Up(q), MouseEvent::Motion(q)]);
    assert_eq!(state.step(q, false, false), vec![MouseEvent::Clear]);
    assert_eq!(state, MouseState::new());
}

#[test]
fn menus_and_popups() {
    let menu = Menu::new(vec![MenuItem::new(3, "three".to_string())]);
    assert_eq!(menu.items[0].value, 3);
    assert_eq!(menu.items[0].label, "three");
    assert_eq!(Popup::new("hi".to_string()).message, "hi");
    let select = LevelSelect::new();
    assert_eq!(select.menu.items.len(), 4);
    assert_eq!(select.menu.items[2].value, 2);
    assert_eq!(select.menu.items[2].label, "2");
}

#[test]
fn toolbar_keys_toggle_items() {
    let items = transport_io::ui::view_build::edit_action_items();
    // 'y' is the second item's shortcut: it gets picked, and picking it again unpicks it.
    let picked = transport_io::ui::toolbar::key_selection(&items, None, 'y');
    assert_eq!(picked, Some(1));
    assert_eq!(transport_io::ui::toolbar::key_selection(&items, picked, 'y'), None);
    // Another item's key moves the pick; an unknown key changes nothing.
    assert_eq!(transport_io::ui::toolbar::key_selection(&items, picked, 'v'), Some(3));
    assert_eq!(transport_io::ui::toolbar::key_selection(&items, picked, 'z'), Some(1));
    assert_eq!(transport_io::ui::toolbar::toggle(Some(2), 2), None);
    assert_eq!(transport_io::ui::toolbar::toggle(Some(2), 0), Some(0));
}

#[test]
fn toolbar_press_toggles_once_per_press() {
    // Pressing over item 1 picks it and holds the press.
    assert_eq!(press_step(None, None, Some(1), true), (Some(1), Some(1)));
    // Keeping the button down does not toggle again.
    assert_eq!(press_step(Some(1), Some(1), Some(1), true), (Some(1), Some(1)));
    // Releasing forgets the press; a new press unpicks the item.
    assert_eq!(press_step(Some(1), Some(1), Some(1), false), (Some(1), None));
    assert_eq!(press_step(Some(1), None, Some(1), true), (None, Some(1)));
    // A press away from the toolbar changes nothing.
    assert_eq!(press_step(Some(0), None, None, true), (Some(0), None));
}

#[test]
fn tool_tooltips_and_level_labels() {
    let tools = build_toolbar_items(Unlocked::All);
    assert_eq!(tools[0]._tooltip, "Build a road");
    assert_eq!(tools[tools.len() - 1]._tooltip, "Delete");
    let edits = edit_action_items();
    assert_eq!(edits[3]._tooltip, "Paste");
    assert_eq!(edits[3].sprite, Sprite::new(11, 3));
    let select = LevelSelect::new();
    for (i, item) in select.menu.items.iter().enumerate() {
        assert_eq!(item.label, i.to_string());
    }
}

#[test]
fn toolbar_state_follows_keys_and_presses() {
    let mut bar = transport_io::ui::toolbar::Toolbar::new(
        transport_io::ui::toolbar::ToolbarType::Horizontal,
        edit_action_items(),
    );
    assert_eq!(bar.get_selected(), None);
    bar.key_down('u');
    assert_eq!(bar.get_selected(), Some(&BuildActions::Undo));
    bar.press(Some(1), true);
    assert_eq!(bar.get_selected(), Some(&BuildActions::Redo));
    bar.press(Some(1), true);
    assert_eq!(bar.get_selected(), Some(&BuildActions::Redo));
    bar.press(None, false);
    bar.press(Some(1), true);
    assert_eq!(bar.get_selected(), None);
    bar.set_sprite(0, Sprite::new(1, 1));
    assert_eq!(bar.items()[0].sprite, Sprite::new(1, 1));
    assert_eq!(bar.items()[1].sprite, Sprite::new(11, 1));
    bar.key_down('c');
    bar.clear_selected();
    assert_eq!(bar.get_selected_index(), None);
}
