use ash_voxels::input::{InputState, Key};

#[test]
fn keys_drive_their_controls() {
    let mut input = InputState::default();
    input.set_key(Key::KeyW, true);
    input.set_key(Key::ArrowLeft, true);
    input.set_key(Key::Other, true);
    assert!(input.forward);
    assert!(input.turn_left);
    assert_eq!(
        input,
        InputState {
            forward: true,
            turn_left: true,
            ..InputState::default()
        }
    );
    input.set_key(Key::KeyW, false);
    assert!(!input.forward);
}

#[test]
fn opposite_keys_cancel() {
    let mut input = InputState::default();
    assert_eq!(input.turn_direction(), 0);
    input.set_key(Key::ArrowLeft, true);
    assert_eq!(input.turn_direction(), 1);
    input.set_key(Key::ArrowRight, true);
    assert_eq!(input.turn_direction(), 0);
    input.set_key(Key::ArrowLeft, false);
    assert_eq!(input.turn_direction(), -1);
    input.set_key(Key::ArrowUp, true);
    assert_eq!(input.look_direction(), -1);
    input.set_key(Key::ArrowDown, true);
    assert_eq!(input.look_direction(), 0);
}

#[test]
fn last_key_setting_wins_and_release_restores() {
    let start = InputState::default();
    let mut input = start;
    input.set_key(Key::Space, true);
    input.set_key(Key::Space, false);
    assert_eq!(input, start);
    input.set_key(Key::ShiftLeft, false);
    input.set_key(Key::ShiftLeft, true);
    assert!(input.down);
}
