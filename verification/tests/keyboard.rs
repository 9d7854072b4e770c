use chip::hardware::{Key, Keyboard};

const KEY: u8 = 0xF;

const ALL_KEYS: [Key; 16] = [
    Key::Key0,
    Key::Key1,
    Key::Key2,
    Key::Key3,
    Key::Key4,
    Key::Key5,
    Key::Key6,
    Key::Key7,
    Key::Key8,
    Key::Key9,
    Key::KeyA,
    Key::KeyB,
    Key::KeyC,
    Key::KeyD,
    Key::KeyE,
    Key::KeyF,
];

fn waiting_keyboard() -> Keyboard {
    let mut keyboard = Keyboard::default();
    keyboard.get_key();
    keyboard
}

#[test]
fn hardware_test_get_key_not_waiting() {
    let mut keyboard = Keyboard::default();

    let key = keyboard.get_key();

    assert_eq!(key, None);
    assert!(keyboard.is_waiting());
}

#[test]
fn hardware_test_get_key_not_pressed() {
    let mut keyboard = waiting_keyboard();

    let key = keyboard.get_key();

    assert_eq!(key, None);
    assert!(keyboard.is_waiting());
}

#[test]
fn hardware_test_get_key_pressed() {
    let mut keyboard = waiting_keyboard();
    keyboard.press_key(Key::KeyF);
    assert_eq!(keyboard.last_pressed(), Some(KEY));
    assert!(keyboard.is_waiting());

    let key = keyboard.get_key();

    assert_eq!(key, Some(KEY));
    assert!(!keyboard.is_waiting());
    assert_eq!(keyboard.last_pressed(), None);
}

#[test]
fn keyboard_test_get_key_not_waiting() {
    let mut keyboard = Keyboard::default();

    let key = keyboard.get_key();

    assert_eq!(key, None);
    assert_eq!(keyboard.is_waiting(), true);
}

#[test]
fn keyboard_test_get_key_not_pressed() {
    let mut keyboard = Keyboard::default();
    keyboard.get_key();
    assert_eq!(keyboard.is_waiting(), true);

    let key = keyboard.get_key();

    assert_eq!(key, None);
    assert_eq!(keyboard.is_waiting(), true);
}

#[test]
fn keyboard_test_get_key_pressed() {
    let mut keyboard = Keyboard::default();
    keyboard.get_key();
    keyboard.press_key(Key::KeyF);
    assert_eq!(keyboard.is_waiting(), true);
    assert_eq!(keyboard.last_pressed(), Some(KEY));

    let key = keyboard.get_key();

    assert_eq!(key, Some(KEY));
    assert_eq!(keyboard.is_waiting(), false);
    assert_eq!(keyboard.last_pressed(), None);
}

#[test]
fn a_fresh_keyboard_is_idle() {
    let keyboard = Keyboard::default();

    assert!(!keyboard.is_waiting());
    assert_eq!(keyboard.last_pressed(), None);
    for key in 0..16u8 {
        assert!(!keyboard.is_key_pressed(key));
    }
}

#[test]
fn each_key_has_its_digit() {
    for (digit, key) in ALL_KEYS.into_iter().enumerate() {
        assert_eq!(key.value(), digit as u8);

        let mut keyboard = Keyboard::default();
        keyboard.press_key(key);
        for other in 0..16u8 {
            assert_eq!(keyboard.is_key_pressed(other), other == digit as u8);
        }
        keyboard.unpress_key(key);
        assert!(!keyboard.is_key_pressed(digit as u8));
    }
}

#[test]
fn a_key_pressed_without_a_wait_is_not_latched() {
    let mut keyboard = Keyboard::default();

    keyboard.press_key(Key::Key7);

    assert!(keyboard.is_key_pressed(7));
    assert_eq!(keyboard.last_pressed(), None);
    assert_eq!(keyboard.get_key(), None);
    assert!(keyboard.is_waiting());
    // The key is still down, but it went down before the wait began.
    assert_eq!(keyboard.get_key(), None);
    assert!(keyboard.is_waiting());
}

#[test]
fn the_first_key_of_a_wait_wins() {
    let mut keyboard = waiting_keyboard();

    keyboard.press_key(Key::Key3);
    keyboard.press_key(Key::KeyA);
    keyboard.press_key(Key::Key0);

    assert_eq!(keyboard.last_pressed(), Some(3));
    assert_eq!(keyboard.get_key(), Some(3));
    assert!(!keyboard.is_waiting());
    assert!(keyboard.is_key_pressed(3));
    assert!(keyboard.is_key_pressed(0xA));
    assert!(keyboard.is_key_pressed(0));
}

#[test]
fn releasing_a_key_keeps_the_latch() {
    let mut keyboard = waiting_keyboard();

    keyboard.press_key(Key::KeyC);
    keyboard.unpress_key(Key::KeyC);

    assert!(!keyboard.is_key_pressed(0xC));
    assert!(keyboard.is_waiting());
    assert_eq!(keyboard.get_key(), Some(0xC));
    assert!(!keyboard.is_waiting());
}

#[test]
fn a_taken_key_is_gone() {
    let mut keyboard = waiting_keyboard();
    keyboard.press_key(Key::Key1);
    assert_eq!(keyboard.get_key(), Some(1));

    // The next request begins a new wait.
    assert_eq!(keyboard.get_key(), None);
    assert!(keyboard.is_waiting());
    keyboard.press_key(Key::Key2);
    assert_eq!(keyboard.get_key(), Some(2));
    assert!(!keyboard.is_waiting());
}
