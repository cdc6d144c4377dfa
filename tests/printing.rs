use volatile::Volatile;
use zer_os::vga::{
    Buffer, Color, ColorCode, Writer, BUFFER_HEIGHT, BUFFER_WIDTH,
};

fn console() -> Writer {
    let buffer: Buffer = core::array::from_fn(|_| core::array::from_fn(|_| Volatile::new(0u16)));
    Writer::new(Box::leak(Box::new(buffer)), ColorCode::new(Color::LightCyan, Color::Black))
}

fn red() -> ColorCode {
    ColorCode::new(Color::LightRed, Color::Black)
}

fn text_at(w: &Writer, row: usize, len: usize) -> String {
    (0..len).map(|c| char::from(w.read_char(row, c).ascii_character)).collect()
}

fn println(w: &mut Writer, s: &str) {
    w.write_string(s);
    w.write_string("\n");
}

fn printlnc_f(w: &mut Writer, color: ColorCode, s: &str) {
    w.write_colored(s, color);
    w.write_colored("\n", color);
}

#[test]
fn trivial_assertion() {
    assert_eq!(1, 1);
}

#[test]
fn test_print_simple() {
    let mut w = console();
    let s = "test_println_simple output";
    w.write_string(s);
    assert_eq!(text_at(&w, BUFFER_HEIGHT - 1, s.len()), s);
    assert_eq!(w.column(), s.len());
}

#[test]
fn test_print_many() {
    let mut w = console();
    let s = "test_print_many output";
    for _ in 0..200 {
        w.write_string(s);
    }
    let total = 200 * s.len();
    assert_eq!(w.column(), (total - 1) % BUFFER_WIDTH + 1);
}

#[test]
fn test_println_simple() {
    let mut w = console();
    println(&mut w, "test_println_simple output");
    assert_eq!(text_at(&w, BUFFER_HEIGHT - 2, 26), "test_println_simple output");
    assert_eq!(w.column(), 0);
}

#[test]
fn test_println_many() {
    let mut w = console();
    for _ in 0..200 {
        println(&mut w, "test_println_many output");
    }
    for row in 0..BUFFER_HEIGHT - 1 {
        assert_eq!(text_at(&w, row, 24), "test_println_many output");
    }
}

#[test]
fn test_println_output() {
    let mut w = console();
    let s = "Some test string that fits on a single line";
    println(&mut w, s);
    for (i, c) in s.chars().enumerate() {
        let screen_char = w.read_char(BUFFER_HEIGHT - 2, i);
        assert_eq!(char::from(screen_char.ascii_character), c);
    }
}

#[test]
fn test_println_wrapping() {
    let mut w = console();
    for _ in 0..BUFFER_HEIGHT + 1 {
        println(&mut w, "Some test string that should wrap to the next line");
    }
    for row in 0..BUFFER_HEIGHT - 1 {
        let screen_char = w.read_char(row, 0);
        assert_eq!(char::from(screen_char.ascii_character), 'S');
    }
}

#[test]
fn test_printc_simple() {
    let mut w = console();
    let before = w.color();
    w.write_colored("test_printc_simple output", red());
    assert_eq!(w.read_char(BUFFER_HEIGHT - 1, 0).color_code, red());
    assert_eq!(text_at(&w, BUFFER_HEIGHT - 1, 25), "test_printc_simple output");
    assert_eq!(w.color(), before);
}

#[test]
fn test_printc_many() {
    let mut w = console();
    for _ in 0..200 {
        w.write_colored("test_printc_many output", red());
    }
    for row in 0..BUFFER_HEIGHT {
        assert_eq!(w.read_char(row, 0).color_code, red());
    }
}

#[test]
fn test_printlnc_simple() {
    let mut w = console();
    w.write_colored("test_printlnc_simple output\n", red());
    assert_eq!(text_at(&w, BUFFER_HEIGHT - 2, 27), "test_printlnc_simple output");
    assert_eq!(w.read_char(BUFFER_HEIGHT - 2, 0).color_code, red());
    assert_eq!(w.read_char(BUFFER_HEIGHT - 1, 0).color_code, red());
    assert_eq!(w.color(), ColorCode::new(Color::LightCyan, Color::Black));
}

#[test]
fn test_printlnc_many() {
    let mut w = console();
    for _ in 0..200 {
        w.write_colored("test_printlnc_many output\n", red());
    }
    for row in 0..BUFFER_HEIGHT - 1 {
        assert_eq!(text_at(&w, row, 25), "test_printlnc_many output");
        assert_eq!(w.read_char(row, 0).color_code, red());
    }
}

#[test]
fn test_printlnc_wrapping() {
    let mut w = console();
    for _ in 0..BUFFER_HEIGHT + 1 {
        w.write_colored("Some test string that should wrap to the next line\n", red());
    }
    for row in 0..BUFFER_HEIGHT - 1 {
        let screen_char = w.read_char(row, 0);
        assert_eq!(char::from(screen_char.ascii_character), 'S');
        assert_eq!(screen_char.color_code, red());
    }
}

#[test]
fn test_printlnc_f_simple() {
    let mut w = console();
    printlnc_f(&mut w, red(), "test_printlnc_f_simple output");
    assert_eq!(text_at(&w, BUFFER_HEIGHT - 2, 29), "test_printlnc_f_simple output");
    assert_eq!(w.column(), 0);
}

#[test]
fn test_printlnc_f_many() {
    let mut w = console();
    for _ in 0..200 {
        printlnc_f(&mut w, red(), "test_printlnc_f_many output");
    }
    assert_eq!(text_at(&w, 0, 27), "test_printlnc_f_many output");
    assert_eq!(w.column(), 0);
}

#[test]
fn test_printlnc_f_output() {
    let mut w = console();
    let s = "Some test string that fits on a single line";
    printlnc_f(&mut w, red(), &format!("{}", s));
    for (i, c) in s.chars().enumerate() {
        let screen_char = w.read_char(BUFFER_HEIGHT - 2, i);
        assert_eq!(char::from(screen_char.ascii_character), c);
        assert_eq!(screen_char.color_code, red());
    }
}

#[test]
fn test_printlnc_f_wrapping() {
    let mut w = console();
    for _ in 0..BUFFER_HEIGHT + 1 {
        printlnc_f(&mut w, red(), "Some test string that should wrap to the next line");
    }
    for row in 0..BUFFER_HEIGHT - 1 {
        let screen_char = w.read_char(row, 0);
        assert_eq!(char::from(screen_char.ascii_character), 'S');
    }
}

#[test]
fn test_println() {
    let mut w = console();
    println(&mut w, "test_println output");
    assert_eq!(text_at(&w, BUFFER_HEIGHT - 2, 19), "test_println output");
}

#[test]
fn test_printing_functionality() {
    let mut w = console();
    println(&mut w, "it is printing");
    assert_eq!(text_at(&w, BUFFER_HEIGHT - 2, 14), "it is printing");
}
