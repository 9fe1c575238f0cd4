use vstd::prelude::*;

verus! {

/// One event of the window system, reduced to what the keypad reads. A key
/// is named by its key code, which for a key that gives a character is the
/// code of that character: 49 for `1`, 113 for `q`.
#[derive(Clone, Copy, Debug, PartialEq, Eq)]
pub enum InputEvent {
    /// The user asked to close the window.
    Quit,
    /// A key went down; `keycode` is `None` where the system knows no code
    /// for it.
    KeyDown { keycode: Option<i32> },
    /// A key came up.
    KeyUp { keycode: Option<i32> },
    /// Any other event.
    Other,
}

/// The key of the hexadecimal keypad that the keyboard key with the code
/// `keycode` stands for. The keypad lies on the left of the keyboard:
///
/// ```text
/// 1 2 3 4      1 2 3 C
/// q w e r  ->  4 5 6 D
/// a s d f      7 8 9 E
/// z x c v      A 0 B F
/// ```
pub open spec fn key_of(keycode: i32) -> Option<u8> {
    if keycode == 49 {
        Some(0x1u8)
    } else if keycode == 50 {
        Some(0x2u8)
    } else if keycode == 51 {
        Some(0x3u8)
    } else if keycode == 52 {
        Some(0xCu8)
    } else if keycode == 113 {
        Some(0x4u8)
    } else if keycode == 119 {
        Some(0x5u8)
    } else if keycode == 101 {
        Some(0x6u8)
    } else if keycode == 114 {
        Some(0xDu8)
    } else if keycode == 97 {
        Some(0x7u8)
    } else if keycode == 115 {
        Some(0x8u8)
    } else if keycode == 100 {
        Some(0x9u8)
    } else if keycode == 102 {
        Some(0xEu8)
    } else if keycode == 122 {
        Some(0xAu8)
    } else if keycode == 120 {
        Some(0x0u8)
    } else if keycode == 99 {
        Some(0xBu8)
    } else if keycode == 118 {
        Some(0xFu8)
    } else {
        None
    }
}

/// The keypad after `event`: a mapped key that goes down sets its cell to
/// 1, one that comes up clears it to 0, and nothing else changes.
pub open spec fn keys_after_event(keys: Seq<u8>, event: InputEvent) -> Seq<u8> {
    match event {
        InputEvent::KeyDown { keycode: Some(code) } => match key_of(code) {
            Some(key) => keys.update(key as int, 1u8),
            None => keys,
        },
        InputEvent::KeyUp { keycode: Some(code) } => match key_of(code) {
            Some(key) => keys.update(key as int, 0u8),
            None => keys,
        },
        _ => keys,
    }
}

/// The keypad after the events `events`, taken in order up to the first
/// `Quit`, together with whether there was a `Quit`. What follows the first
/// `Quit` is not looked at.
pub open spec fn keys_after_events(keys: Seq<u8>, events: Seq<InputEvent>) -> (Seq<u8>, bool)
    decreases events.len(),
{
    if events.len() == 0 {
        (keys, false)
    } else if events[0] is Quit {
        (keys, true)
    } else {
        keys_after_events(keys_after_event(keys, events[0]), events.drop_first())
    }
}

/// Maps a key code to the key of the hexadecimal keypad that it stands
/// for, if it stands for one.
pub fn key_value(keycode: i32) -> (key: Option<u8>)
    ensures
        key == key_of(keycode),
        key matches Some(k) ==> k < 16,
{
    match keycode {
        49 => Some(0x1),
        50 => Some(0x2),
        51 => Some(0x3),
        52 => Some(0xC),
        113 => Some(0x4),
        119 => Some(0x5),
        101 => Some(0x6),
        114 => Some(0xD),
        97 => Some(0x7),
        115 => Some(0x8),
        100 => Some(0x9),
        102 => Some(0xE),
        122 => Some(0xA),
        120 => Some(0x0),
        99 => Some(0xB),
        118 => Some(0xF),
        _ => None,
    }
}

/// Applies one event to the keypad and says whether it asks to quit.
pub fn handle_event(keys: &mut [u8; 16], event: InputEvent) -> (quit: bool)
    ensures
        final(keys)@ == keys_after_event(old(keys)@, event),
        quit == (event is Quit),
{
    match event {
        InputEvent::Quit => true,
        InputEvent::KeyDown { keycode } => {
            match keycode {
                Some(code) => {
                    match key_value(code) {
                        Some(key) => {
                            keys[key as usize] = 1;
                        },
                        None => {},
                    }
                },
                None => {},
            }
            false
        },
        InputEvent::KeyUp { keycode } => {
            match keycode {
                Some(code) => {
                    match key_value(code) {
                        Some(key) => {
                            keys[key as usize] = 0;
                        },
                        None => {},
                    }
                },
                None => {},
            }
            false
        },
        InputEvent::Other => false,
    }
}

/// Applies the events that were polled to the keypad, in order, and stops
/// at the first `Quit`. Returns whether there was one.
pub fn process_input(keys: &mut [u8; 16], events: &Vec<InputEvent>) -> (quit: bool)
    ensures
        (final(keys)@, quit) == keys_after_events(old(keys)@, events@),
{
    let mut i: usize = 0;
    assert(events@.skip(0) =~= events@);
    while i < events.len()
        invariant
            i <= events@.len(),
            keys_after_events(old(keys)@, events@) == keys_after_events(
                keys@,
                events@.skip(i as int),
            ),
        decreases events@.len() - i,
    {
        let ghost rest = events@.skip(i as int);
        assert(rest[0] == events@[i as int]);
        assert(rest.drop_first() =~= events@.skip(i + 1));
        if handle_event(keys, events[i]) {
            return true;
        }
        i += 1;
    }
    false
}

} // verus!
