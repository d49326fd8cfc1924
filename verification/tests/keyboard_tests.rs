use curi_os::keyboard::{keyboard_interrupt_handler, KeyOutput, KeyboardDecoder};
use curi_os::pic::ControllerBridge;
use curi_os::vesa_buffer::{Screen, Writer};
use font8x8::UnicodeFonts;

#[test]
fn test_press_yields_one_printable_release_yields_none() {
    let mut decoder = KeyboardDecoder::new();
    // scancode set 1: 0x1e is the make code of the A key
    let pressed = decoder.feed(0x1e);
    assert_eq!(pressed, Some(KeyOutput::Unicode('a')));
    // 0x9e is the corresponding break code; no printable character comes out
    let released = decoder.feed(0x9e);
    match released {
        Some(KeyOutput::Unicode(_)) => panic!("release decoded to a printable character"),
        _ => {}
    }
}

#[test]
fn test_extended_prefix_yields_nothing_yet() {
    let mut decoder = KeyboardDecoder::new();
    assert_eq!(decoder.feed(0xe0), None);
}

#[test]
fn test_handler_acknowledges_exactly_once_per_invocation() {
    let mut decoder = KeyboardDecoder::new();
    let mut bridge = ControllerBridge::new(32, 40);
    bridge.initialize();
    let mut writer = Writer::new();
    let mut screen = Screen::new();
    let mut tokens: Vec<u8> = Vec::new();

    keyboard_interrupt_handler(&mut decoder, &mut bridge, &mut writer, &mut screen, &mut tokens, 0x1e);
    assert_eq!(bridge.eoi_log().as_slice(), &[33]);

    // a byte that decodes to nothing still gets acknowledged
    keyboard_interrupt_handler(&mut decoder, &mut bridge, &mut writer, &mut screen, &mut tokens, 0xe0);
    assert_eq!(bridge.eoi_log().as_slice(), &[33, 33]);
}

#[test]
fn test_handler_renders_pressed_key() {
    let mut decoder = KeyboardDecoder::new();
    let mut bridge = ControllerBridge::new(32, 40);
    bridge.initialize();
    let mut writer = Writer::new();
    let mut screen = Screen::new();
    let mut tokens: Vec<u8> = Vec::new();

    keyboard_interrupt_handler(&mut decoder, &mut bridge, &mut writer, &mut screen, &mut tokens, 0x1e);

    // the pen advanced one cell and drew the glyph of 'a' at (8, 0)
    assert_eq!(writer.position(), (8, 0));
    let glyph = font8x8::BASIC_FONTS.get('a').unwrap();
    for (dy, row) in glyph.iter().enumerate() {
        for dx in 0..8 {
            let expected = if row & (1 << dx) != 0 { 0xffff } else { 0x0000 };
            let got = screen.get_colour_at(8 + dx, dy).as_u16();
            assert_eq!(got, expected, "pixel ({}, {})", 8 + dx, dy);
        }
    }
    assert!(tokens.is_empty());
}

#[test]
fn test_handler_forwards_raw_key_as_debug_token() {
    let mut decoder = KeyboardDecoder::new();
    let mut bridge = ControllerBridge::new(32, 40);
    bridge.initialize();
    let mut writer = Writer::new();
    let mut screen = Screen::new();
    let mut tokens: Vec<u8> = Vec::new();

    // 0x3b is the make code of F1, which has no Unicode meaning
    keyboard_interrupt_handler(&mut decoder, &mut bridge, &mut writer, &mut screen, &mut tokens, 0x3b);
    assert_eq!(tokens.len(), 1);
    assert_eq!(writer.position(), (0, 0));
    assert_eq!(bridge.eoi_log().as_slice(), &[33]);
}
