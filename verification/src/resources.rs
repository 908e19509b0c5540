//! Shared resources read by the game systems.

use vstd::prelude::*;

verus! {

/// Resource that represents the number of frames elapsed since the last time
/// all of the systems were run. Value is guaranteed to be greater than or
/// equal to 1.
/// Often this will be just 1 but it may be greater if there is lag or if a
/// system takes too long.
#[derive(Debug, Clone, Copy, PartialEq, Eq, Structural)]
pub struct FramesElapsed(pub usize);

/// A physical key on the device's keypad, named after the scancode it
/// reports. The input layer reports which of these are currently held down.
#[derive(Debug, Clone, Copy, PartialEq, Eq, Structural)]
pub enum Key {
    Up,
    Down,
    Left,
    Right,
    Escape,
    Space,
    Return,
    Minus,
    KpPlus,
    U,
    I,
    J,
    K,
    Home,
    PageUp,
    PageDown,
    End,
}

/// Resource that represents which keys are currently pressed.
///
/// Each boolean is true if the key is pressed and false otherwise
#[derive(Debug, Clone, Copy, PartialEq, Eq, Structural)]
pub struct GameKeys {
    pub up_arrow: bool,
    pub down_arrow: bool,
    pub left_arrow: bool,
    pub right_arrow: bool,
    pub menu: bool,
    pub select: bool,
    pub start: bool,
    pub volume_down: bool,
    pub volume_up: bool,
    pub x: bool,
    pub y: bool,
    pub a: bool,
    pub b: bool,
    pub light_key_1: bool,
    pub light_key_2: bool,
    pub light_key_3: bool,
    pub light_key_4: bool,
    pub light_key_5: bool,
}

/// Whether `key` is among the pressed keys.
fn key_pressed(pressed: &Vec<Key>, key: Key) -> (r: bool)
    ensures
        r == pressed@.contains(key),
{
    let mut i: usize = 0;
    while i < pressed.len()
        invariant
            i <= pressed@.len(),
            forall|j: int| 0 <= j < i ==> pressed@[j] != key,
        decreases pressed@.len() - i,
    {
        if pressed[i] == key {
            assert(pressed@[i as int] == key);
            return true;
        }
        i = i + 1;
    }
    false
}

impl GameKeys {
    /// Builds the game's view of the keypad from the list of keys the input
    /// layer reports as held down, one flag per mapped key.
    ///
    /// There is no key reported for the third light key, so its flag is
    /// always false.
    pub fn from_pressed(pressed: &Vec<Key>) -> (keys: GameKeys)
        ensures
            keys.up_arrow == pressed@.contains(Key::Up),
            keys.down_arrow == pressed@.contains(Key::Down),
            keys.left_arrow == pressed@.contains(Key::Left),
            keys.right_arrow == pressed@.contains(Key::Right),
            keys.menu == pressed@.contains(Key::Escape),
            keys.select == pressed@.contains(Key::Space),
            keys.start == pressed@.contains(Key::Return),
            keys.volume_down == pressed@.contains(Key::Minus),
            keys.volume_up == pressed@.contains(Key::KpPlus),
            keys.x == pressed@.contains(Key::U),
            keys.y == pressed@.contains(Key::I),
            keys.a == pressed@.contains(Key::J),
            keys.b == pressed@.contains(Key::K),
            keys.light_key_1 == pressed@.contains(Key::Home),
            keys.light_key_2 == pressed@.contains(Key::PageUp),
            keys.light_key_3 == false,
            keys.light_key_4 == pressed@.contains(Key::PageDown),
            keys.light_key_5 == pressed@.contains(Key::End),
    {
        GameKeys {
            up_arrow: key_pressed(pressed, Key::Up),
            down_arrow: key_pressed(pressed, Key::Down),
            left_arrow: key_pressed(pressed, Key::Left),
            right_arrow: key_pressed(pressed, Key::Right),
            menu: key_pressed(pressed, Key::Escape),
            select: key_pressed(pressed, Key::Space),
            start: key_pressed(pressed, Key::Return),
            volume_down: key_pressed(pressed, Key::Minus),
            volume_up: key_pressed(pressed, Key::KpPlus),
            x: key_pressed(pressed, Key::U),
            y: key_pressed(pressed, Key::I),
            a: key_pressed(pressed, Key::J),
            b: key_pressed(pressed, Key::K),
            light_key_1: key_pressed(pressed, Key::Home),
            light_key_2: key_pressed(pressed, Key::PageUp),
            light_key_3: false,
            light_key_4: key_pressed(pressed, Key::PageDown),
            light_key_5: key_pressed(pressed, Key::End),
        }
    }
}

} // verus!
