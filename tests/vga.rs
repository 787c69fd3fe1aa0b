use ruin::interrupts::{HardwareInterrupt, QemuExitCode};
use ruin::vga::{ColorCode, VgaChar, VgaColor, VgaWriter, BUFFER_HEIGHT, BUFFER_WIDTH};

fn bottom(w: &VgaWriter, col: usize) -> u8 {
    w.buffer.chars[BUFFER_HEIGHT - 1][col].character
}

#[test]
fn color_code_packs_nibbles() {
    assert_eq!(ColorCode::new(VgaColor::LightGray, VgaColor::Black), ColorCode(0x07));
    assert_eq!(ColorCode::new(VgaColor::Yellow, VgaColor::Blue), ColorCode(0x1e));
    assert_eq!(ColorCode::new(VgaColor::White, VgaColor::White), ColorCode(0xff));
}

#[test]
fn text_goes_to_bottom_row() {
    let mut w = VgaWriter::new(VgaColor::Green, VgaColor::Black);
    w.write_string("Hi");
    assert_eq!(bottom(&w, 0), b'H');
    assert_eq!(bottom(&w, 1), b'i');
    assert_eq!(bottom(&w, 2), b' ');
    assert_eq!(w.buffer.chars[BUFFER_HEIGHT - 1][0], VgaChar { character: b'H', color: ColorCode(0x02) });
}

#[test]
fn newline_scrolls_up() {
    let mut w = VgaWriter::new(VgaColor::White, VgaColor::Black);
    w.write_string("ab\ncd");
    assert_eq!(w.buffer.chars[BUFFER_HEIGHT - 2][0].character, b'a');
    assert_eq!(w.buffer.chars[BUFFER_HEIGHT - 2][1].character, b'b');
    assert_eq!(bottom(&w, 0), b'c');
    assert_eq!(bottom(&w, 1), b'd');
}

#[test]
fn unprintable_bytes_show_as_block() {
    let mut w = VgaWriter::new(VgaColor::White, VgaColor::Black);
    w.write_string("a\u{e9}b");
    assert_eq!(bottom(&w, 0), b'a');
    assert_eq!(bottom(&w, 1), 0xfe);
    assert_eq!(bottom(&w, 2), 0xfe);
    assert_eq!(bottom(&w, 3), b'b');
}

#[test]
fn full_row_wraps() {
    let mut w = VgaWriter::new(VgaColor::White, VgaColor::Black);
    let line: String = std::iter::repeat('x').take(BUFFER_WIDTH).collect();
    w.write_string(&line);
    w.write_byte(b'y');
    assert_eq!(w.buffer.chars[BUFFER_HEIGHT - 2][BUFFER_WIDTH - 1].character, b'x');
    assert_eq!(bottom(&w, 0), b'y');
    assert_eq!(bottom(&w, 1), b' ');
}

#[test]
fn interrupt_vectors() {
    assert_eq!(HardwareInterrupt::Timer.to_u8(), 32);
    assert_eq!(HardwareInterrupt::Keyboard.to_u8(), 33);
    assert_eq!(HardwareInterrupt::Keyboard.to_usize(), 33);
    assert_eq!(QemuExitCode::Success.code(), 0x10);
    assert_eq!(QemuExitCode::Fail.code(), 0x11);
}
