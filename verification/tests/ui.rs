use gameroy::ui::{decimal_mark, key_event, set_key, Key, KeyAction};

#[test]
fn decimal_mark_groups_digits_by_three() {
    assert_eq!(decimal_mark(0), "0");
    assert_eq!(decimal_mark(999), "999");
    assert_eq!(decimal_mark(1000), "1 000");
    assert_eq!(decimal_mark(1234567), "1 234 567");
    assert_eq!(decimal_mark(u64::MAX), "18 446 744 073 709 551 615");
}

#[test]
fn set_key_clears_the_bit_of_a_pressed_button() {
    assert_eq!(set_key(0xFF, 0, true), 0xFE);
    assert_eq!(set_key(0xFE, 0, false), 0xFF);
    assert_eq!(set_key(0xFF, 7, true), 0x7F);
    assert_eq!(set_key(0x00, 3, false), 0x08);
    assert_eq!(set_key(0x5A, 2, true), 0x5A);
}

#[test]
fn joypad_keys_change_only_their_bit() {
    assert_eq!(key_event(0xFF, Key::Right, true, false), (0xFE, KeyAction::Nothing));
    assert_eq!(key_event(0xFE, Key::Right, false, true), (0xFF, KeyAction::Nothing));
    assert_eq!(key_event(0xFF, Key::S, true, false), (0xDF, KeyAction::Nothing));
    assert_eq!(key_event(0xFF, Key::Return, true, true), (0x7F, KeyAction::Nothing));
    assert_eq!(key_event(0x00, Key::Back, false, false), (0x40, KeyAction::Nothing));
}

#[test]
fn function_keys_depend_on_the_debug_panel() {
    assert_eq!(key_event(0xFF, Key::F5, true, false), (0xFF, KeyAction::SaveState));
    assert_eq!(key_event(0xFF, Key::F6, true, true), (0xFF, KeyAction::LoadState));
    assert_eq!(key_event(0xFF, Key::F7, true, true), (0xFF, KeyAction::StepBack));
    assert_eq!(key_event(0xFF, Key::F7, true, false), (0xFF, KeyAction::Nothing));
    assert_eq!(key_event(0xFF, Key::F8, true, true), (0xFF, KeyAction::Step));
    assert_eq!(key_event(0xFF, Key::F9, true, true), (0xFF, KeyAction::Run));
    assert_eq!(key_event(0xFF, Key::F12, true, false), (0xFF, KeyAction::OpenDebugPanel));
    assert_eq!(key_event(0xFF, Key::F12, true, true), (0xFF, KeyAction::CloseDebugPanel));
    assert_eq!(key_event(0xFF, Key::F5, false, false), (0xFF, KeyAction::Nothing));
}

#[test]
fn shift_and_r_act_while_held() {
    assert_eq!(key_event(0xFF, Key::LShift, true, false), (0xFF, KeyAction::FrameLimit(false)));
    assert_eq!(key_event(0xFF, Key::LShift, false, false), (0xFF, KeyAction::FrameLimit(true)));
    assert_eq!(key_event(0xFF, Key::R, true, false), (0xFF, KeyAction::Rewind(true)));
    assert_eq!(key_event(0xFF, Key::R, false, false), (0xFF, KeyAction::Rewind(false)));
    assert_eq!(key_event(0xFF, Key::R, true, true), (0xFF, KeyAction::Nothing));
    assert_eq!(key_event(0xFF, Key::Other, true, false), (0xFF, KeyAction::Nothing));
}
