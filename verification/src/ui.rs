//! The computations of the debugger and emulator views that do not depend on the
//! widgets: the clock counter text, the joypad state and what a key does.
use vstd::prelude::*;
use vstd::string::StringExecFns;

verus! {

/// The character of decimal digit `d`.
pub open spec fn digit_char(d: int) -> char {
    if d == 0 {
        '0'
    } else if d == 1 {
        '1'
    } else if d == 2 {
        '2'
    } else if d == 3 {
        '3'
    } else if d == 4 {
        '4'
    } else if d == 5 {
        '5'
    } else if d == 6 {
        '6'
    } else if d == 7 {
        '7'
    } else if d == 8 {
        '8'
    } else {
        '9'
    }
}

/// The decimal digits of `n`, most significant first, without leading zeros.
pub open spec fn decimal_digits(n: nat) -> Seq<char>
    decreases n,
{
    if n < 10 {
        seq![digit_char(n as int)]
    } else {
        decimal_digits(n / 10).push(digit_char((n % 10) as int))
    }
}

/// The first `k` digits of `d`, each followed by a space when a multiple of three
/// digits (and at least one) comes after it.
pub open spec fn grouped_prefix(d: Seq<char>, k: nat) -> Seq<char>
    decreases k,
{
    if k == 0 {
        Seq::empty()
    } else {
        let rest = d.len() - k;
        let prev = grouped_prefix(d, (k - 1) as nat).push(d[k - 1]);
        if rest > 0 && rest % 3 == 0 {
            prev.push(' ')
        } else {
            prev
        }
    }
}

/// `n` in decimal with its digits in groups of three separated by spaces, as in
/// "1 234 567".
pub open spec fn decimal_mark_spec(n: nat) -> Seq<char> {
    grouped_prefix(decimal_digits(n), decimal_digits(n).len())
}

fn digit_str(d: u64) -> (s: &'static str)
    requires
        d < 10,
    ensures
        s@ == seq![digit_char(d as int)],
{
    proof {
        reveal_strlit("0");
        reveal_strlit("1");
        reveal_strlit("2");
        reveal_strlit("3");
        reveal_strlit("4");
        reveal_strlit("5");
        reveal_strlit("6");
        reveal_strlit("7");
        reveal_strlit("8");
        reveal_strlit("9");
    }
    if d == 0 {
        "0"
    } else if d == 1 {
        "1"
    } else if d == 2 {
        "2"
    } else if d == 3 {
        "3"
    } else if d == 4 {
        "4"
    } else if d == 5 {
        "5"
    } else if d == 6 {
        "6"
    } else if d == 7 {
        "7"
    } else if d == 8 {
        "8"
    } else {
        "9"
    }
}

/// The digits of `n` as numbers, least significant first.
fn digits_of(n: u64) -> (v: Vec<u64>)
    ensures
        v@.len() >= 1,
        forall|k: int| 0 <= k < v@.len() ==> #[trigger] v@[k] < 10,
        decimal_digits(n as nat) == Seq::new(
            v@.len(),
            |k: int| digit_char(v@[v@.len() - 1 - k] as int),
        ),
{
    let mut v: Vec<u64> = Vec::new();
    let mut m = n;
    while m >= 10
        invariant
            forall|k: int| 0 <= k < v@.len() ==> #[trigger] v@[k] < 10,
            decimal_digits(n as nat) == decimal_digits(m as nat) + Seq::new(
                v@.len(),
                |k: int| digit_char(v@[v@.len() - 1 - k] as int),
            ),
        decreases m,
    {
        let ghost before = v@;
        v.push(m % 10);
        assert(decimal_digits(m as nat) == decimal_digits((m / 10) as nat).push(
            digit_char((m % 10) as int),
        ));
        assert(seq![digit_char((m % 10) as int)] + Seq::new(
            before.len(),
            |k: int| digit_char(before[before.len() - 1 - k] as int),
        ) =~= Seq::new(v@.len(), |k: int| digit_char(v@[v@.len() - 1 - k] as int)));
        assert(decimal_digits((m / 10) as nat).push(digit_char((m % 10) as int)) + Seq::new(
            before.len(),
            |k: int| digit_char(before[before.len() - 1 - k] as int),
        ) =~= decimal_digits((m / 10) as nat) + (seq![digit_char((m % 10) as int)] + Seq::new(
            before.len(),
            |k: int| digit_char(before[before.len() - 1 - k] as int),
        )));
        m = m / 10;
    }
    let ghost before = v@;
    v.push(m);
    assert(decimal_digits(m as nat) + Seq::new(
        before.len(),
        |k: int| digit_char(before[before.len() - 1 - k] as int),
    ) =~= Seq::new(v@.len(), |k: int| digit_char(v@[v@.len() - 1 - k] as int)));
    v
}

/// `n` in decimal with its digits in groups of three separated by spaces, as in
/// "1 234 567".
pub fn decimal_mark(n: u64) -> (result: String)
    ensures
        result@ == decimal_mark_spec(n as nat),
{
    let digits = digits_of(n);
    let ghost d = decimal_digits(n as nat);
    let len = digits.len();
    let mut result = String::new();
    let mut k: usize = 0;
    while k < len
        invariant
            len == digits@.len(),
            d.len() == len,
            d == Seq::new(
                digits@.len(),
                |j: int| digit_char(digits@[digits@.len() - 1 - j] as int),
            ),
            forall|j: int| 0 <= j < digits@.len() ==> #[trigger] digits@[j] < 10,
            k <= len,
            result@ == grouped_prefix(d, k as nat),
        decreases len - k,
    {
        let c = digit_str(digits[len - 1 - k]);
        result.append(c);
        let i = len - k - 1;
        if i > 0 && i % 3 == 0 {
            proof {
                reveal_strlit(" ");
            }
            result.append(" ");
        }
        k = k + 1;
    }
    result
}

/// The joypad state with button `key` (bit `key`) pressed or released: a pressed
/// button reads 0, a released one 1.
pub fn set_key(joypad: u8, key: u8, pressed: bool) -> (r: u8)
    requires
        key < 8,
    ensures
        r == ((joypad & !(1u8 << key)) | ((if pressed {
            0u8
        } else {
            1u8
        }) << key)),
        (r >> key) & 1 == (if pressed {
            0u8
        } else {
            1u8
        }),
        forall|b: u8| b < 8 && b != key ==> #[trigger] ((r >> b) & 1) == (joypad >> b) & 1,
{
    let released: u8 = if pressed {
        0
    } else {
        1
    };
    let r = (joypad & !(1u8 << key)) | (released << key);
    assert((r >> key) & 1 == released) by (bit_vector)
        requires
            r == (joypad & !(1u8 << key)) | (released << key),
            key < 8,
            released <= 1,
    ;
    assert forall|b: u8| b < 8 && b != key implies #[trigger] ((r >> b) & 1) == (joypad >> b) & 1 by {
        assert(b < 8 && b != key ==> ((r >> b) & 1) == (joypad >> b) & 1) by (bit_vector)
            requires
                r == (joypad & !(1u8 << key)) | (released << key),
                key < 8,
                released <= 1,
        ;
    }
    r
}

/// A key of the keyboard that the emulator view reacts to; `Other` is any other key.
#[derive(Clone, Copy, Debug, PartialEq, Eq, Structural)]
pub enum Key {
    Right,
    Left,
    Up,
    Down,
    A,
    S,
    Back,
    Return,
    F5,
    F6,
    F7,
    F8,
    F9,
    F12,
    LShift,
    R,
    Other,
}

/// What the emulator view does on a key event besides updating the joypad.
#[derive(Clone, Copy, Debug, PartialEq, Eq, Structural)]
pub enum KeyAction {
    Nothing,
    SaveState,
    LoadState,
    StepBack,
    Step,
    Run,
    OpenDebugPanel,
    CloseDebugPanel,
    /// Limit the frame rate (`true`) or run as fast as possible (`false`).
    FrameLimit(bool),
    /// Start (`true`) or stop (`false`) rewinding.
    Rewind(bool),
}

/// The joypad bit that `key` drives: the arrow keys the directions, A and S the
/// buttons A and B, Backspace Select and Return Start.
pub open spec fn joypad_bit(key: Key) -> Option<u8> {
    match key {
        Key::Right => Some(0u8),
        Key::Left => Some(1u8),
        Key::Up => Some(2u8),
        Key::Down => Some(3u8),
        Key::A => Some(4u8),
        Key::S => Some(5u8),
        Key::Back => Some(6u8),
        Key::Return => Some(7u8),
        _ => None,
    }
}

/// The joypad state after `key` is pressed or released: a joypad key sets its bit,
/// to 0 while held and to 1 once released; other keys leave the state as it is.
pub open spec fn joypad_after(joypad: u8, key: Key, pressed: bool) -> u8 {
    match joypad_bit(key) {
        Some(b) => (joypad & !(1u8 << b)) | ((if pressed {
            0u8
        } else {
            1u8
        }) << b),
        None => joypad,
    }
}

/// Each joypad key drives its own bit of the joypad state, which reads 0 while the
/// key is held and 1 once it is released: Right bit 0, Left bit 1, Up bit 2, Down
/// bit 3, A (button A) bit 4, S (button B) bit 5, Backspace (Select) bit 6 and
/// Return (Start) bit 7. No other bit changes, and no other key changes the state.
pub proof fn lemma_joypad_keys(joypad: u8, pressed: bool, key: Key)
    ensures
        key == Key::Right ==> joypad_after(joypad, key, pressed) == if pressed {
            joypad & 0xFE
        } else {
            joypad | 0x01
        },
        key == Key::Left ==> joypad_after(joypad, key, pressed) == if pressed {
            joypad & 0xFD
        } else {
            joypad | 0x02
        },
        key == Key::Up ==> joypad_after(joypad, key, pressed) == if pressed {
            joypad & 0xFB
        } else {
            joypad | 0x04
        },
        key == Key::Down ==> joypad_after(joypad, key, pressed) == if pressed {
            joypad & 0xF7
        } else {
            joypad | 0x08
        },
        key == Key::A ==> joypad_after(joypad, key, pressed) == if pressed {
            joypad & 0xEF
        } else {
            joypad | 0x10
        },
        key == Key::S ==> joypad_after(joypad, key, pressed) == if pressed {
            joypad & 0xDF
        } else {
            joypad | 0x20
        },
        key == Key::Back ==> joypad_after(joypad, key, pressed) == if pressed {
            joypad & 0xBF
        } else {
            joypad | 0x40
        },
        key == Key::Return ==> joypad_after(joypad, key, pressed) == if pressed {
            joypad & 0x7F
        } else {
            joypad | 0x80
        },
        joypad_bit(key) is None ==> joypad_after(joypad, key, pressed) == joypad,
{
    let j = joypad;
    assert((j & !(1u8 << 0u8)) | (0u8 << 0u8) == j & 0xFE && (j & !(1u8 << 0u8)) | (1u8 << 0u8)
        == j | 0x01) by (bit_vector);
    assert((j & !(1u8 << 1u8)) | (0u8 << 1u8) == j & 0xFD && (j & !(1u8 << 1u8)) | (1u8 << 1u8)
        == j | 0x02) by (bit_vector);
    assert((j & !(1u8 << 2u8)) | (0u8 << 2u8) == j & 0xFB && (j & !(1u8 << 2u8)) | (1u8 << 2u8)
        == j | 0x04) by (bit_vector);
    assert((j & !(1u8 << 3u8)) | (0u8 << 3u8) == j & 0xF7 && (j & !(1u8 << 3u8)) | (1u8 << 3u8)
        == j | 0x08) by (bit_vector);
    assert((j & !(1u8 << 4u8)) | (0u8 << 4u8) == j & 0xEF && (j & !(1u8 << 4u8)) | (1u8 << 4u8)
        == j | 0x10) by (bit_vector);
    assert((j & !(1u8 << 5u8)) | (0u8 << 5u8) == j & 0xDF && (j & !(1u8 << 5u8)) | (1u8 << 5u8)
        == j | 0x20) by (bit_vector);
    assert((j & !(1u8 << 6u8)) | (0u8 << 6u8) == j & 0xBF && (j & !(1u8 << 6u8)) | (1u8 << 6u8)
        == j | 0x40) by (bit_vector);
    assert((j & !(1u8 << 7u8)) | (0u8 << 7u8) == j & 0x7F && (j & !(1u8 << 7u8)) | (1u8 << 7u8)
        == j | 0x80) by (bit_vector);
}

/// The action of a key that drives no joypad bit. With the debug panel open, F5 to
/// F9 save, load, step back, step and run, and F12 closes the panel; with it
/// closed, F5 and F6 save and load, F12 opens the panel, Left Shift held lifts the
/// frame limit and R held rewinds. Releases do nothing but for Left Shift and R.
pub open spec fn key_action_spec(key: Key, pressed: bool, debug: bool) -> KeyAction {
    if debug {
        if !pressed {
            KeyAction::Nothing
        } else {
            match key {
                Key::F5 => KeyAction::SaveState,
                Key::F6 => KeyAction::LoadState,
                Key::F7 => KeyAction::StepBack,
                Key::F8 => KeyAction::Step,
                Key::F9 => KeyAction::Run,
                Key::F12 => KeyAction::CloseDebugPanel,
                _ => KeyAction::Nothing,
            }
        }
    } else {
        match key {
            Key::F5 => if pressed { KeyAction::SaveState } else { KeyAction::Nothing },
            Key::F6 => if pressed { KeyAction::LoadState } else { KeyAction::Nothing },
            Key::F12 => if pressed { KeyAction::OpenDebugPanel } else { KeyAction::Nothing },
            Key::LShift => KeyAction::FrameLimit(!pressed),
            Key::R => KeyAction::Rewind(pressed),
            _ => KeyAction::Nothing,
        }
    }
}

/// What the keys that drive no joypad bit do. F5 saves and F6 loads a state in
/// either view; F12 opens the debug panel when it is closed and closes it when it is
/// open; F7, F8 and F9 step back, step and run only with the panel open; Left Shift
/// lifts the frame limit while held and R rewinds while held, only with the panel
/// closed. A release does nothing but end the hold of Left Shift or R.
pub proof fn lemma_key_actions(key: Key, pressed: bool, debug: bool)
    ensures
        pressed && key == Key::F5 ==> key_action_spec(key, pressed, debug) == KeyAction::SaveState,
        pressed && key == Key::F6 ==> key_action_spec(key, pressed, debug) == KeyAction::LoadState,
        pressed && key == Key::F12 ==> key_action_spec(key, pressed, debug) == (if debug {
            KeyAction::CloseDebugPanel
        } else {
            KeyAction::OpenDebugPanel
        }),
        pressed && key == Key::F7 ==> key_action_spec(key, pressed, debug) == (if debug {
            KeyAction::StepBack
        } else {
            KeyAction::Nothing
        }),
        pressed && key == Key::F8 ==> key_action_spec(key, pressed, debug) == (if debug {
            KeyAction::Step
        } else {
            KeyAction::Nothing
        }),
        pressed && key == Key::F9 ==> key_action_spec(key, pressed, debug) == (if debug {
            KeyAction::Run
        } else {
            KeyAction::Nothing
        }),
        key == Key::LShift ==> key_action_spec(key, pressed, debug) == (if debug {
            KeyAction::Nothing
        } else {
            KeyAction::FrameLimit(!pressed)
        }),
        key == Key::R ==> key_action_spec(key, pressed, debug) == (if debug {
            KeyAction::Nothing
        } else {
            KeyAction::Rewind(pressed)
        }),
        !pressed && key != Key::LShift && key != Key::R ==> key_action_spec(key, pressed, debug)
            == KeyAction::Nothing,
        joypad_bit(key) is Some || key == Key::Other ==> key_action_spec(key, pressed, debug)
            == KeyAction::Nothing,
{
}

/// The joypad state and the action after `key` is pressed or released, with the
/// debug panel open or not. A joypad key changes its bit and does nothing else;
/// any other key leaves the joypad as it is.
pub fn key_event(joypad: u8, key: Key, pressed: bool, debug: bool) -> (r: (u8, KeyAction))
    ensures
        match joypad_bit(key) {
            Some(b) => r.0 == ((joypad & !(1u8 << b)) | ((if pressed {
                0u8
            } else {
                1u8
            }) << b)) && r.1 == KeyAction::Nothing,
            None => r.0 == joypad && r.1 == key_action_spec(key, pressed, debug),
        },
        r.0 == joypad_after(joypad, key, pressed),
{
    let bit: Option<u8> = match key {
        Key::Right => Some(0),
        Key::Left => Some(1),
        Key::Up => Some(2),
        Key::Down => Some(3),
        Key::A => Some(4),
        Key::S => Some(5),
        Key::Back => Some(6),
        Key::Return => Some(7),
        _ => None,
    };
    match bit {
        Some(b) => (set_key(joypad, b, pressed), KeyAction::Nothing),
        None => {
            let action = if debug {
                if !pressed {
                    KeyAction::Nothing
                } else {
                    match key {
                        Key::F5 => KeyAction::SaveState,
                        Key::F6 => KeyAction::LoadState,
                        Key::F7 => KeyAction::StepBack,
                        Key::F8 => KeyAction::Step,
                        Key::F9 => KeyAction::Run,
                        Key::F12 => KeyAction::CloseDebugPanel,
                        _ => KeyAction::Nothing,
                    }
                }
            } else {
                match key {
                    Key::F5 => if pressed { KeyAction::SaveState } else { KeyAction::Nothing },
                    Key::F6 => if pressed { KeyAction::LoadState } else { KeyAction::Nothing },
                    Key::F12 => if pressed {
                        KeyAction::OpenDebugPanel
                    } else {
                        KeyAction::Nothing
                    },
                    Key::LShift => KeyAction::FrameLimit(!pressed),
                    Key::R => KeyAction::Rewind(pressed),
                    _ => KeyAction::Nothing,
                }
            };
            (joypad, action)
        },
    }
}

} // verus!
