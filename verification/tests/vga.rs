use yos_kernel::idt::{InterruptIndex, PIC_1_OFFSET, PIC_2_OFFSET};
use yos_kernel::vga::{VGAColor, VGAColorCode, VGAWriter, VGA_HEIGHT, VGA_WIDTH};

fn writer() -> VGAWriter {
    VGAWriter::new(VGAColorCode::new(VGAColor::White, VGAColor::Black))
}

#[test]
fn color_codes_pack_background_high_and_foreground_low() {
    assert_eq!(VGAColorCode::new(VGAColor::White, VGAColor::Black).as_u8(), 0x0f);
    assert_eq!(VGAColorCode::new(VGAColor::Black, VGAColor::White).as_u8(), 0xf0);
    assert_eq!(VGAColorCode::new(VGAColor::Yellow, VGAColor::Blue).as_u8(), 0x1e);
    assert_eq!(VGAColorCode::new(VGAColor::LightCyan, VGAColor::Red).as_u8(), 0x4b);
}

#[test]
fn writing_a_byte_stores_it_and_advances_the_cursor() {
    let mut w = writer();
    w.write_byte(b'A');
    assert_eq!(w.char_at(0, 0), b'A');
    assert_eq!(w.cursor_row(), 0);
    assert_eq!(w.cursor_column(), 1);
    assert_eq!(w.char_at(0, 1), b' ');
}

#[test]
fn writing_past_the_line_end_wraps_to_the_next_row() {
    let mut w = writer();
    for _ in 0..VGA_WIDTH {
        w.write_byte(b'x');
    }
    assert_eq!(w.cursor_row(), 0);
    assert_eq!(w.cursor_column(), VGA_WIDTH);
    w.write_byte(b'y');
    assert_eq!(w.cursor_row(), 1);
    assert_eq!(w.cursor_column(), 1);
    assert_eq!(w.char_at(1, 0), b'y');
    assert_eq!(w.char_at(0, VGA_WIDTH - 1), b'x');
}

#[test]
fn newline_on_the_last_row_scrolls_the_grid_up() {
    let mut w = writer();
    for _ in 0..(VGA_HEIGHT - 1) {
        w.write_char('\n');
    }
    assert_eq!(w.cursor_row(), VGA_HEIGHT - 1);
    w.write_byte(b'B');
    assert_eq!(w.char_at(VGA_HEIGHT - 1, 0), b'B');
    w.write_char('\n');
    // The line holding 'B' moved one row up; the last row is blank again.
    assert_eq!(w.cursor_row(), VGA_HEIGHT - 1);
    assert_eq!(w.cursor_column(), 0);
    assert_eq!(w.char_at(VGA_HEIGHT - 2, 0), b'B');
    assert_eq!(w.char_at(VGA_HEIGHT - 1, 0), b' ');
}

#[test]
fn write_str_handles_newlines_and_replaces_non_printable_characters() {
    let mut w = writer();
    w.write_str("hi\nok");
    assert_eq!(w.char_at(0, 0), b'h');
    assert_eq!(w.char_at(0, 1), b'i');
    assert_eq!(w.char_at(1, 0), b'o');
    assert_eq!(w.char_at(1, 1), b'k');
    assert_eq!(w.cursor_row(), 1);
    assert_eq!(w.cursor_column(), 2);
    let mut w = writer();
    w.write_char('\u{20ac}');
    assert_eq!(w.char_at(0, 0), 0xfe);
    // A character whose scalar value truncates to a printable byte is
    // written as that byte.
    let mut w = writer();
    w.write_char('\u{121}');
    assert_eq!(w.char_at(0, 0), 0x21);
}

#[test]
fn interrupt_lines_sit_at_the_remapped_controller_offsets() {
    assert_eq!(PIC_1_OFFSET, 32);
    assert_eq!(PIC_2_OFFSET, 40);
    assert_eq!(InterruptIndex::Timer.as_u8(), 32);
    assert_eq!(InterruptIndex::Keyboard.as_u8(), 33);
}
