//! The keys that scripts know by name.

use vstd::prelude::*;
use vstd::string::StringExecFns;

verus! {

/// A key that scripts can ask for.
#[derive(Clone, Copy, Debug, PartialEq, Eq, Structural)]
pub enum KeyCode {
    Key1,
    Key2,
    Key3,
    Key4,
    Key5,
    Key6,
    Key7,
    Key8,
    Key9,
    Key0,
    Right,
    Left,
    Up,
    Down,
}

/// The name under which scripts know `key`.
pub open spec fn key_name(key: KeyCode) -> Seq<char> {
    match key {
        KeyCode::Key1 => "Key1"@,
        KeyCode::Key2 => "Key2"@,
        KeyCode::Key3 => "Key3"@,
        KeyCode::Key4 => "Key4"@,
        KeyCode::Key5 => "Key5"@,
        KeyCode::Key6 => "Key6"@,
        KeyCode::Key7 => "Key7"@,
        KeyCode::Key8 => "Key8"@,
        KeyCode::Key9 => "Key9"@,
        KeyCode::Key0 => "Key0"@,
        KeyCode::Right => "Right"@,
        KeyCode::Left => "Left"@,
        KeyCode::Up => "Up"@,
        KeyCode::Down => "Down"@,
    }
}

/// The keys that scripts can ask for, in the order in which they are made
/// known to the scripts.
pub open spec fn known_keys() -> Seq<KeyCode> {
    seq![
        KeyCode::Key1,
        KeyCode::Key2,
        KeyCode::Key3,
        KeyCode::Key4,
        KeyCode::Key5,
        KeyCode::Key6,
        KeyCode::Key7,
        KeyCode::Key8,
        KeyCode::Key9,
        KeyCode::Key0,
        KeyCode::Right,
        KeyCode::Left,
        KeyCode::Up,
        KeyCode::Down,
    ]
}

/// The first of `keys` that is known under `name`, if one is.
pub open spec fn key_named_among(keys: Seq<KeyCode>, name: Seq<char>) -> Option<KeyCode>
    decreases keys.len(),
{
    if keys.len() == 0 {
        None
    } else if key_name(keys[0]) == name {
        Some(keys[0])
    } else {
        key_named_among(keys.skip(1), name)
    }
}

/// The key that is known under `name`, if one is.
pub open spec fn key_named(name: Seq<char>) -> Option<KeyCode> {
    key_named_among(known_keys(), name)
}

/// The name under which scripts know `key`.
pub fn name_of(key: KeyCode) -> (name: String)
    ensures
        name@ == key_name(key),
{
    match key {
        KeyCode::Key1 => String::from_str("Key1"),
        KeyCode::Key2 => String::from_str("Key2"),
        KeyCode::Key3 => String::from_str("Key3"),
        KeyCode::Key4 => String::from_str("Key4"),
        KeyCode::Key5 => String::from_str("Key5"),
        KeyCode::Key6 => String::from_str("Key6"),
        KeyCode::Key7 => String::from_str("Key7"),
        KeyCode::Key8 => String::from_str("Key8"),
        KeyCode::Key9 => String::from_str("Key9"),
        KeyCode::Key0 => String::from_str("Key0"),
        KeyCode::Right => String::from_str("Right"),
        KeyCode::Left => String::from_str("Left"),
        KeyCode::Up => String::from_str("Up"),
        KeyCode::Down => String::from_str("Down"),
    }
}

/// The keys that scripts can ask for.
pub fn all_keys() -> (keys: Vec<KeyCode>)
    ensures
        keys@ == known_keys(),
{
    let keys = vec![
        KeyCode::Key1,
        KeyCode::Key2,
        KeyCode::Key3,
        KeyCode::Key4,
        KeyCode::Key5,
        KeyCode::Key6,
        KeyCode::Key7,
        KeyCode::Key8,
        KeyCode::Key9,
        KeyCode::Key0,
        KeyCode::Right,
        KeyCode::Left,
        KeyCode::Up,
        KeyCode::Down,
    ];
    assert(keys@ =~= known_keys());
    keys
}

/// The key that is known under `code`, if one is.
pub fn virtual_key_code_from_string(code: &str) -> (key: Option<KeyCode>)
    ensures
        key == key_named(code@),
{
    let name = code.to_owned();
    let keys = all_keys();
    let mut i: usize = 0;
    assert(keys@.skip(0) == keys@);
    while i < keys.len()
        invariant
            i <= keys@.len(),
            keys@ == known_keys(),
            name@ == code@,
            key_named(code@) == key_named_among(keys@.skip(i as int), code@),
        decreases keys@.len() - i,
    {
        assert(keys@.skip(i as int)[0] == keys@[i as int]);
        assert(keys@.skip(i as int).skip(1) == keys@.skip(i + 1));
        if name_of(keys[i]) == name {
            return Some(keys[i]);
        }
        i = i + 1;
    }
    None
}

} // verus!
