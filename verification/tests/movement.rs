use mantis::movement::{
    auto_movement_enabled, keyboard_controls, switch_movement_mode, Heading, HeldKeys, MovementMode,
};

fn keys(forward: bool, back: bool, left: bool, right: bool) -> HeldKeys {
    HeldKeys { forward, back, left, right }
}

const ALL_MODES: [MovementMode; 4] =
    [MovementMode::Mouse, MovementMode::Keyboard, MovementMode::Auto, MovementMode::Legacy];

#[test]
fn mode_key_walks_the_cycle() {
    assert_eq!(switch_movement_mode(MovementMode::Mouse, true), MovementMode::Keyboard);
    assert_eq!(switch_movement_mode(MovementMode::Keyboard, true), MovementMode::Auto);
    assert_eq!(switch_movement_mode(MovementMode::Auto, true), MovementMode::Mouse);
}

#[test]
fn legacy_mode_ignores_the_mode_key() {
    assert_eq!(switch_movement_mode(MovementMode::Legacy, true), MovementMode::Legacy);
    assert_eq!(switch_movement_mode(MovementMode::Legacy, false), MovementMode::Legacy);
}

#[test]
fn mode_unchanged_without_press() {
    for mode in ALL_MODES {
        assert_eq!(switch_movement_mode(mode, false), mode);
    }
}

#[test]
fn three_presses_return_to_start() {
    for mode in ALL_MODES {
        let once = switch_movement_mode(mode, true);
        let twice = switch_movement_mode(once, true);
        let thrice = switch_movement_mode(twice, true);
        assert_eq!(thrice, mode);
        if mode != MovementMode::Legacy {
            assert_ne!(once, mode);
            assert_ne!(once, MovementMode::Legacy);
        }
    }
}

#[test]
fn keyboard_only_in_keyboard_mode() {
    let held = keys(true, false, false, true);
    assert_eq!(keyboard_controls(MovementMode::Mouse, held), None);
    assert_eq!(keyboard_controls(MovementMode::Auto, held), None);
    assert_eq!(keyboard_controls(MovementMode::Legacy, held), None);
    assert_eq!(keyboard_controls(MovementMode::Keyboard, held), Some(Heading { x: 1, z: 1 }));
}

#[test]
fn keyboard_headings() {
    let k = MovementMode::Keyboard;
    assert_eq!(keyboard_controls(k, keys(false, false, false, false)), Some(Heading { x: 0, z: 0 }));
    assert_eq!(keyboard_controls(k, keys(true, false, false, false)), Some(Heading { x: 0, z: 1 }));
    assert_eq!(keyboard_controls(k, keys(false, true, false, false)), Some(Heading { x: 0, z: -1 }));
    assert_eq!(keyboard_controls(k, keys(false, false, true, false)), Some(Heading { x: -1, z: 0 }));
    assert_eq!(keyboard_controls(k, keys(false, false, false, true)), Some(Heading { x: 1, z: 0 }));
}

#[test]
fn keyboard_forward_and_left_win_ties() {
    let k = MovementMode::Keyboard;
    assert_eq!(keyboard_controls(k, keys(true, true, true, true)), Some(Heading { x: -1, z: 1 }));
    assert_eq!(keyboard_controls(k, keys(false, true, false, true)), Some(Heading { x: 1, z: -1 }));
}

#[test]
fn auto_movement_only_in_auto_mode() {
    assert!(auto_movement_enabled(MovementMode::Auto));
    assert!(!auto_movement_enabled(MovementMode::Mouse));
    assert!(!auto_movement_enabled(MovementMode::Keyboard));
    assert!(!auto_movement_enabled(MovementMode::Legacy));
}

#[test]
fn keyboard_and_auto_never_both_drive() {
    let held = keys(true, false, true, false);
    for mode in ALL_MODES {
        assert!(!(auto_movement_enabled(mode) && keyboard_controls(mode, held).is_some()));
    }
}
