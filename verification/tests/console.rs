use tomorrow::console::{Console, ConsoleOp};
use tomorrow::fmt::{dec_text, hex_text};
use tomorrow::font::{glyph, glyph_pixels};

fn glyph_op(ch: u8, x: u32, y: u32) -> ConsoleOp {
    ConsoleOp::Glyph { ch, x, y }
}

#[test]
fn decimal_and_hex_text() {
    assert_eq!(dec_text(0), b"0".to_vec());
    assert_eq!(dec_text(1234), b"1234".to_vec());
    assert_eq!(dec_text(u64::MAX), b"18446744073709551615".to_vec());
    assert_eq!(hex_text(0x1f), b"000000000000001f".to_vec());
    assert_eq!(hex_text(0xdead_beef_0000_0001), b"deadbeef00000001".to_vec());
}

#[test]
fn bytes_are_drawn_left_to_right() {
    let mut c = Console::new(4 * 640, 640, 480);
    let ops = c.write_str("Hi");
    assert_eq!(ops, vec![glyph_op(b'H', 0, 0), glyph_op(b'i', 8, 0)]);
    assert_eq!((c.cx, c.cy), (2, 0));
}

#[test]
fn newline_moves_to_the_next_row() {
    let mut c = Console::new(4 * 640, 640, 480);
    let ops = c.write_str("a\nb");
    assert_eq!(ops, vec![glyph_op(b'a', 0, 0), glyph_op(b'b', 0, 16)]);
    assert_eq!((c.cx, c.cy), (1, 1));
}

#[test]
fn the_cursor_wraps_at_the_right_edge() {
    // Two columns.
    let mut c = Console::new(64, 16, 480);
    let ops = c.write_str("xyz");
    assert_eq!(ops, vec![glyph_op(b'x', 0, 0), glyph_op(b'y', 8, 0), glyph_op(b'z', 0, 16)]);
}

#[test]
fn leaving_the_last_row_clears_the_screen() {
    // Two rows of text.
    let mut c = Console::new(4 * 640, 640, 32);
    let ops = c.write_str("\n\n");
    assert_eq!(ops, vec![ConsoleOp::Clear { words: 640 * 32 }]);
    assert_eq!((c.cx, c.cy), (0, 0));
    assert_eq!(c.clear(), ConsoleOp::Clear { words: 640 * 32 });
}

#[test]
fn backspace_takes_back_a_cell() {
    let mut c = Console::new(4 * 640, 640, 480);
    assert_eq!(c.backspace(), None);
    c.write_str("ab");
    assert_eq!(c.backspace(), Some(ConsoleOp::Blank { x: 8, y: 0 }));
    assert_eq!((c.cx, c.cy), (1, 0));
    c.write_str("\n");
    assert_eq!(c.backspace(), None);
}

#[test]
fn numbers_on_the_console() {
    let mut c = Console::new(4 * 640, 640, 480);
    let ops = c.write_dec(42);
    assert_eq!(ops, vec![glyph_op(b'4', 0, 0), glyph_op(b'2', 8, 0)]);
    let ops = c.write_hex(0xab);
    assert_eq!(ops.len(), 16);
    assert_eq!(ops[14], glyph_op(b'a', 8 * 16, 0));
    assert_eq!(ops[15], glyph_op(b'b', 8 * 17, 0));
    let ops = c.write_byte(b'!');
    assert_eq!(ops, vec![glyph_op(b'!', 8 * 18, 0)]);
}

fn tiny_font() -> Vec<u8> {
    // PSF2 header: header size 32, 16 bytes per glyph, then glyphs 0..=2.
    let mut f = vec![0u8; 32];
    f[8] = 32;
    f[20] = 16;
    for c in 0..3u8 {
        for row in 0..16u8 {
            f.push(c * 16 + row);
        }
    }
    f
}

#[test]
fn glyph_is_the_slice_after_the_header() {
    let f = tiny_font();
    let g = glyph(&f, 2);
    assert_eq!(g.len(), 16);
    assert_eq!(g[0], 32);
    assert_eq!(g[15], 47);
}

#[test]
fn glyph_pixels_lights_the_set_bits() {
    let mut g = vec![0u8; 16];
    g[0] = 0x80; // leftmost pixel of the top row
    g[3] = 0x01; // rightmost pixel of row 3
    let px = glyph_pixels(&g, 10, 20, 400);
    // 100 pixels per line.
    assert_eq!(px.len(), 2);
    assert!(px.contains(&(20 * 100 + 10)));
    assert!(px.contains(&(23 * 100 + 17)));
}

#[test]
fn echo_then_erase_restores_the_cursor() {
    let mut c = Console::new(2560, 640, 480);
    c.write_bytes(b"ab\ncd");
    let (cx, cy) = (c.cx, c.cy);
    let ops = c.write_byte(b'x');
    assert_eq!(ops, vec![glyph_op(b'x', 16, 16)]);
    assert_eq!(c.backspace(), Some(ConsoleOp::Blank { x: 16, y: 16 }));
    assert_eq!((c.cx, c.cy), (cx, cy));
}

#[test]
fn writing_two_strings_is_writing_their_concatenation() {
    let mut c1 = Console::new(4 * 64, 64, 48);
    let mut ops1 = c1.write_str("ab\ncdefghij");
    ops1.extend(c1.write_str("kl\n\n"));
    let mut c2 = Console::new(4 * 64, 64, 48);
    let ops2 = c2.write_str("ab\ncdefghijkl\n\n");
    assert_eq!(ops1, ops2);
    assert_eq!((c1.cx, c1.cy), (c2.cx, c2.cy));
    assert_eq!(c2.write_str(""), vec![]);
}
