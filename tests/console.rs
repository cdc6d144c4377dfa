use volatile::Volatile;
use zer_os::vga::{
    Buffer, Color, ColorCode, ScreenChar, Writer, BUFFER_HEIGHT, BUFFER_WIDTH,
    REPLACEMENT_GLYPH,
};

fn leaked_buffer(fill: u16) -> &'static mut Buffer {
    let buffer: Buffer = core::array::from_fn(|_| core::array::from_fn(|_| Volatile::new(fill)));
    Box::leak(Box::new(buffer))
}

fn writer_with(color: ColorCode) -> Writer {
    Writer::new(leaked_buffer(0), color)
}

fn default_color() -> ColorCode {
    ColorCode::new(Color::LightCyan, Color::Black)
}

fn row_text(w: &Writer, row: usize, len: usize) -> String {
    (0..len).map(|c| char::from(w.read_char(row, c).ascii_character)).collect()
}

#[test]
fn color_code_packs_background_high() {
    assert_eq!(ColorCode::new(Color::LightGreen, Color::Black).as_byte(), 0x0a);
    assert_eq!(ColorCode::new(Color::Black, Color::LightRed).as_byte(), 0xc0);
    assert_eq!(ColorCode::new(Color::White, Color::Blue).as_byte(), 0x1f);
    assert_eq!(ColorCode::new(Color::LightCyan, Color::Black).as_byte(), 0x0b);
}

#[test]
fn color_indices_follow_palette() {
    assert_eq!(Color::Black.index(), 0);
    assert_eq!(Color::Brown.index(), 6);
    assert_eq!(Color::LightGray.index(), 7);
    assert_eq!(Color::Pink.index(), 13);
    assert_eq!(Color::White.index(), 15);
    for i in 0..16u8 {
        assert_eq!(Color::from_index(i).index(), i);
    }
}

#[test]
fn attribute_round_trip_all_bytes() {
    for b in 0..=255u8 {
        let code = ColorCode::from_byte(b);
        let fg = code.foreground();
        let bg = code.background();
        assert_eq!(fg.index(), b & 0x0f);
        assert_eq!(bg.index(), b >> 4);
        assert_eq!(ColorCode::new(fg, bg).as_byte(), b);
        assert_eq!(ColorCode::new(fg, bg), code);
    }
}

#[test]
fn new_writer_starts_at_column_zero() {
    let w = writer_with(default_color());
    assert_eq!(w.column(), 0);
    assert_eq!(w.color(), default_color());
    assert_eq!(w.read_char(BUFFER_HEIGHT - 1, 0).ascii_character, 0);
}

#[test]
fn short_string_lands_on_last_row() {
    let color = ColorCode::new(Color::Yellow, Color::Blue);
    let mut w = writer_with(color);
    let s = "Hello, world!";
    w.write_string(s);
    for (i, b) in s.bytes().enumerate() {
        let cell = w.read_char(BUFFER_HEIGHT - 1, i);
        assert_eq!(cell, ScreenChar { ascii_character: b, color_code: color });
    }
    assert_eq!(w.column(), s.len());
}

#[test]
fn full_width_string_fits_without_scroll() {
    let mut w = writer_with(default_color());
    let s: String = (0..BUFFER_WIDTH).map(|i| (b'a' + (i % 26) as u8) as char).collect();
    w.write_string("above\n");
    w.write_string(&s);
    assert_eq!(w.column(), BUFFER_WIDTH);
    assert_eq!(row_text(&w, BUFFER_HEIGHT - 1, BUFFER_WIDTH), s);
    assert_eq!(row_text(&w, BUFFER_HEIGHT - 2, 5), "above");
}

#[test]
fn newline_moves_rows_up_and_evicts_first_line() {
    let mut w = writer_with(default_color());
    for i in 0..BUFFER_HEIGHT + 1 {
        w.write_string(&format!("line {:02}\n", i));
    }
    assert_eq!(w.column(), 0);
    // lines 0 and 1 are gone; row r holds line r + 2
    for row in 0..BUFFER_HEIGHT - 1 {
        assert_eq!(row_text(&w, row, 7), format!("line {:02}", row + 2));
        for c in 7..BUFFER_WIDTH {
            assert_eq!(
                w.read_char(row, c),
                ScreenChar { ascii_character: b' ', color_code: default_color() }
            );
        }
    }
    let row1_before: Vec<ScreenChar> = (0..BUFFER_WIDTH).map(|c| w.read_char(1, c)).collect();
    w.write_byte(b'\n');
    let row0_after: Vec<ScreenChar> = (0..BUFFER_WIDTH).map(|c| w.read_char(0, c)).collect();
    assert_eq!(row0_after, row1_before);
    assert_eq!(w.column(), 0);
}

#[test]
fn overlong_text_wraps_exactly_once() {
    let color = default_color();
    let mut w = writer_with(color);
    let k = 5;
    let s: String = (0..BUFFER_WIDTH + k).map(|i| (b'A' + (i % 26) as u8) as char).collect();
    w.write_string("marker\n");
    w.write_string(&s);
    assert_eq!(w.column(), k);
    assert_eq!(row_text(&w, BUFFER_HEIGHT - 2, BUFFER_WIDTH), s[..BUFFER_WIDTH]);
    assert_eq!(row_text(&w, BUFFER_HEIGHT - 1, k), s[BUFFER_WIDTH..]);
    for c in k..BUFFER_WIDTH {
        assert_eq!(
            w.read_char(BUFFER_HEIGHT - 1, c),
            ScreenChar { ascii_character: b' ', color_code: color }
        );
    }
    // exactly one scroll: "marker" moved up by one row only
    assert_eq!(row_text(&w, BUFFER_HEIGHT - 3, 6), "marker");
}

#[test]
fn unprintable_byte_stored_as_replacement() {
    let mut w = writer_with(default_color());
    w.write_byte(0x01);
    assert_eq!(w.read_char(BUFFER_HEIGHT - 1, 0).ascii_character, REPLACEMENT_GLYPH);
    assert_eq!(REPLACEMENT_GLYPH, 0xfe);
    w.write_byte(0x7f);
    assert_eq!(w.read_char(BUFFER_HEIGHT - 1, 1).ascii_character, 0xfe);
    w.write_byte(0x1b);
    assert_eq!(w.read_char(BUFFER_HEIGHT - 1, 2).ascii_character, 0xfe);
    w.write_byte(b'~');
    assert_eq!(w.read_char(BUFFER_HEIGHT - 1, 3).ascii_character, b'~');
    assert_eq!(w.column(), 4);
}

#[test]
fn non_ascii_string_bytes_replaced() {
    let mut w = writer_with(default_color());
    w.write_string("a\u{e4}b");
    assert_eq!(row_text(&w, BUFFER_HEIGHT - 1, 1), "a");
    assert_eq!(w.read_char(BUFFER_HEIGHT - 1, 1).ascii_character, 0xfe);
    assert_eq!(w.read_char(BUFFER_HEIGHT - 1, 2).ascii_character, 0xfe);
    assert_eq!(w.read_char(BUFFER_HEIGHT - 1, 3).ascii_character, b'b');
    assert_eq!(w.column(), 4);
}

#[test]
fn unprintable_after_full_row_goes_to_new_row() {
    let mut w = writer_with(default_color());
    let s = "x".repeat(BUFFER_WIDTH);
    w.write_string(&s);
    w.write_byte(0x00);
    assert_eq!(w.column(), 1);
    assert_eq!(w.read_char(BUFFER_HEIGHT - 1, 0).ascii_character, 0xfe);
    assert_eq!(row_text(&w, BUFFER_HEIGHT - 2, BUFFER_WIDTH), s);
}

#[test]
fn scroll_blanks_last_row_in_current_color() {
    let start = default_color();
    let red = ColorCode::new(Color::LightRed, Color::Red);
    let mut w = writer_with(start);
    w.write_string("abc");
    w.set_color(red);
    w.write_byte(b'\n');
    for c in 0..BUFFER_WIDTH {
        assert_eq!(
            w.read_char(BUFFER_HEIGHT - 1, c),
            ScreenChar { ascii_character: b' ', color_code: red }
        );
    }
    w.reset_color(start);
    assert_eq!(w.color(), start);
    assert_eq!(w.read_char(BUFFER_HEIGHT - 2, 0).color_code, start);
}

#[test]
fn print_with_color_brackets_the_write() {
    let start = default_color();
    let color = ColorCode::new(Color::LightRed, Color::Black);
    let mut w = writer_with(start);
    w.write_colored("red", color);
    assert_eq!(w.color(), start);
    for c in 0..3 {
        assert_eq!(w.read_char(BUFFER_HEIGHT - 1, c).color_code, color);
    }
    assert_eq!(row_text(&w, BUFFER_HEIGHT - 1, 3), "red");
    w.write_string("!");
    assert_eq!(w.read_char(BUFFER_HEIGHT - 1, 3).color_code, start);
}

#[test]
fn cell_holds_glyph_then_attribute() {
    let buffer = leaked_buffer(0);
    let color = ColorCode::new(Color::White, Color::Blue);
    let mut w = Writer::new(buffer, color);
    w.write_byte(b'A');
    let cell = w.read_char(BUFFER_HEIGHT - 1, 0);
    assert_eq!(cell.ascii_character, 0x41);
    assert_eq!(cell.color_code.as_byte(), 0x1f);
}

#[test]
fn writer_reads_existing_cells() {
    let w = Writer::new(leaked_buffer(0x4f41), default_color());
    let cell = w.read_char(3, 7);
    assert_eq!(cell.ascii_character, 0x41);
    assert_eq!(cell.color_code.as_byte(), 0x4f);
}

#[test]
fn locked_prints_go_through_the_lock_and_release_it() {
    let start = default_color();
    let red = ColorCode::new(Color::LightRed, Color::Black);
    let lock = spin::Mutex::new(writer_with(start));
    zer_os::vga::_print(&lock, "ab");
    assert!(lock.try_lock().is_some());
    zer_os::vga::_print_with_color(&lock, "cd\n", red);
    assert!(lock.try_lock().is_some());
    let w = lock.lock();
    assert_eq!(row_text(&w, BUFFER_HEIGHT - 2, 4), "abcd");
    assert_eq!(w.read_char(BUFFER_HEIGHT - 2, 1).color_code, start);
    assert_eq!(w.read_char(BUFFER_HEIGHT - 2, 2).color_code, red);
    assert_eq!(w.read_char(BUFFER_HEIGHT - 1, 0).color_code, red);
    assert_eq!(w.color(), start);
    assert_eq!(w.column(), 0);
}
