use tomorrow::keyboard::{shell_byte, Drain, DrainStep, Key, Keyboard, DRAIN_LIMIT};

#[test]
fn ascii_keys_reach_the_shell() {
    assert_eq!(shell_byte(Some(Key::Unicode('a'))), Some(b'a'));
    assert_eq!(shell_byte(Some(Key::Unicode('\n'))), Some(10));
    assert_eq!(shell_byte(Some(Key::Unicode('\u{8}'))), Some(8));
    assert_eq!(shell_byte(Some(Key::Unicode('é'))), None);
    assert_eq!(shell_byte(Some(Key::Raw)), None);
    assert_eq!(shell_byte(None), None);
}

#[test]
fn scancodes_decode_to_characters() {
    let mut kb = Keyboard::init();
    // 'a' pressed (set 1 make code 0x1E), then released.
    assert_eq!(kb.on_scancode(0x1E), Some(b'a'));
    assert_eq!(kb.on_scancode(0x9E), None);
    // Left Shift down, 'a', Shift up.
    assert_eq!(kb.on_scancode(0x2A), None);
    assert_eq!(kb.on_scancode(0x1E), Some(b'A'));
    assert_eq!(kb.on_scancode(0xAA), None);
    // Enter and Backspace.
    assert_eq!(kb.on_scancode(0x1C), Some(b'\n'));
    assert_eq!(kb.on_scancode(0x0E), Some(8));
}

#[test]
fn draining_stops_when_empty_or_stuck() {
    let mut d = Drain::new();
    assert_eq!(d.on_status(0x1D), DrainStep::Read);
    assert_eq!(d.on_status(0x1C), DrainStep::Done);
    let mut d = Drain::new();
    for _ in 0..DRAIN_LIMIT {
        assert_eq!(d.on_status(1), DrainStep::Read);
    }
    assert_eq!(d.on_status(1), DrainStep::Flush);
}
