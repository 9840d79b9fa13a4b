//! Keyboard state for the camera controller.
use vstd::prelude::*;

verus! {

/// The keys that the camera controller reads; every other key is `Other`.
#[derive(Clone, Copy, Debug, PartialEq, Eq, Structural)]
pub enum Key {
    KeyW,
    KeyS,
    KeyA,
    KeyD,
    Space,
    ShiftLeft,
    ArrowLeft,
    ArrowRight,
    ArrowUp,
    ArrowDown,
    Other,
}

/// Which camera controls are held down.
#[derive(Clone, Copy, Debug, Default, PartialEq, Eq, Structural)]
pub struct InputState {
    pub forward: bool,
    pub backward: bool,
    pub left: bool,
    pub right: bool,
    pub up: bool,
    pub down: bool,
    pub turn_left: bool,
    pub turn_right: bool,
    pub look_up: bool,
    pub look_down: bool,
}

/// The state after `key` went down (`pressed`) or up: the control bound to
/// the key takes `pressed`, all others keep their value.
pub open spec fn with_key(s: InputState, key: Key, pressed: bool) -> InputState {
    match key {
        Key::KeyW => InputState { forward: pressed, ..s },
        Key::KeyS => InputState { backward: pressed, ..s },
        Key::KeyA => InputState { left: pressed, ..s },
        Key::KeyD => InputState { right: pressed, ..s },
        Key::Space => InputState { up: pressed, ..s },
        Key::ShiftLeft => InputState { down: pressed, ..s },
        Key::ArrowLeft => InputState { turn_left: pressed, ..s },
        Key::ArrowRight => InputState { turn_right: pressed, ..s },
        Key::ArrowUp => InputState { look_up: pressed, ..s },
        Key::ArrowDown => InputState { look_down: pressed, ..s },
        Key::Other => s,
    }
}

pub open spec fn bool_int(b: bool) -> int {
    if b {
        1
    } else {
        0
    }
}

impl InputState {
    #[verifier::rlimit(30)]
    pub fn set_key(&mut self, key_code: Key, pressed: bool)
        ensures
            *final(self) == with_key(*old(self), key_code, pressed),
            // Each control follows its own key: W forward, S backward, A left,
            // D right, Space up, left Shift down, the arrows turn and look.
            final(self).forward == if key_code == Key::KeyW { pressed } else { old(self).forward },
            final(self).backward == if key_code == Key::KeyS { pressed } else { old(self).backward },
            final(self).left == if key_code == Key::KeyA { pressed } else { old(self).left },
            final(self).right == if key_code == Key::KeyD { pressed } else { old(self).right },
            final(self).up == if key_code == Key::Space { pressed } else { old(self).up },
            final(self).down == if key_code == Key::ShiftLeft { pressed } else { old(self).down },
            final(self).turn_left == if key_code == Key::ArrowLeft { pressed } else { old(self).turn_left },
            final(self).turn_right == if key_code == Key::ArrowRight { pressed } else { old(self).turn_right },
            final(self).look_up == if key_code == Key::ArrowUp { pressed } else { old(self).look_up },
            final(self).look_down == if key_code == Key::ArrowDown { pressed } else { old(self).look_down },
    {
        match key_code {
            Key::KeyW => self.forward = pressed,
            Key::KeyS => self.backward = pressed,
            Key::KeyA => self.left = pressed,
            Key::KeyD => self.right = pressed,
            Key::Space => self.up = pressed,
            Key::ShiftLeft => self.down = pressed,
            Key::ArrowLeft => self.turn_left = pressed,
            Key::ArrowRight => self.turn_right = pressed,
            Key::ArrowUp => self.look_up = pressed,
            Key::ArrowDown => self.look_down = pressed,
            Key::Other => {},
        }
    }

    /// The turning input: +1 to the left, -1 to the right, 0 for both or none.
    pub fn turn_direction(&self) -> (r: i32)
        ensures
            r == bool_int(self.turn_left) - bool_int(self.turn_right),
    {
        self.turn_left as i32 - self.turn_right as i32
    }

    /// The pitch input: +1 down, -1 up, 0 for both or none.
    pub fn look_direction(&self) -> (r: i32)
        ensures
            r == bool_int(self.look_down) - bool_int(self.look_up),
    {
        self.look_down as i32 - self.look_up as i32
    }
}

/// The key bindings: each control changes only with its own key (W forward,
/// S backward, A left, D right, Space up, left Shift down, left and right
/// arrows turn, up and down arrows look), and takes the pressed state.
#[verifier::rlimit(30)]
pub proof fn lemma_key_bindings(s: InputState, key: Key, pressed: bool)
    ensures
        with_key(s, key, pressed).forward == if key == Key::KeyW { pressed } else { s.forward },
        with_key(s, key, pressed).backward == if key == Key::KeyS { pressed } else { s.backward },
        with_key(s, key, pressed).left == if key == Key::KeyA { pressed } else { s.left },
        with_key(s, key, pressed).right == if key == Key::KeyD { pressed } else { s.right },
        with_key(s, key, pressed).up == if key == Key::Space { pressed } else { s.up },
        with_key(s, key, pressed).down == if key == Key::ShiftLeft { pressed } else { s.down },
        with_key(s, key, pressed).turn_left == if key == Key::ArrowLeft { pressed } else { s.turn_left },
        with_key(s, key, pressed).turn_right == if key == Key::ArrowRight { pressed } else { s.turn_right },
        with_key(s, key, pressed).look_up == if key == Key::ArrowUp { pressed } else { s.look_up },
        with_key(s, key, pressed).look_down == if key == Key::ArrowDown { pressed } else { s.look_down },
{
    match key {
        Key::KeyW => {},
        Key::KeyS => {},
        Key::KeyA => {},
        Key::KeyD => {},
        Key::Space => {},
        Key::ShiftLeft => {},
        Key::ArrowLeft => {},
        Key::ArrowRight => {},
        Key::ArrowUp => {},
        Key::ArrowDown => {},
        Key::Other => {},
    }
}

/// Setting a key twice in a row leaves only the second setting.
pub proof fn lemma_last_key_setting_wins(s: InputState, key: Key, first: bool, second: bool)
    ensures
        with_key(with_key(s, key, first), key, second) == with_key(s, key, second),
{
    match key {
        Key::KeyW => {},
        Key::KeyS => {},
        Key::KeyA => {},
        Key::KeyD => {},
        Key::Space => {},
        Key::ShiftLeft => {},
        Key::ArrowLeft => {},
        Key::ArrowRight => {},
        Key::ArrowUp => {},
        Key::ArrowDown => {},
        Key::Other => {},
    }
}

/// Pressing and then releasing a key restores a state in which it was up.
pub proof fn lemma_press_release_restores(s: InputState, key: Key)
    requires
        with_key(s, key, false) == s,
    ensures
        with_key(with_key(s, key, true), key, false) == s,
{
}

} // verus!
