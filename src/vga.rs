//! The text-mode console: a grid of `BUFFER_HEIGHT` rows by `BUFFER_WIDTH`
//! columns of glyph/attribute cells, and the writer that owns the cursor.
//!
//! Every cell of the grid is read and written through `volatile::Volatile`,
//! so that no access to the display memory is removed or reordered.
use vstd::prelude::*;
use volatile::Volatile;
use vstd::string::StringSliceAdditionalSpecFns;
use spin::Mutex;
use crate::sync::guarded;

verus! {

/// Number of rows of the text grid.
pub const BUFFER_HEIGHT: usize = 25;

/// Number of columns of the text grid.
pub const BUFFER_WIDTH: usize = 80;

/// The physical address at which the text grid is mapped.
pub const VGA_BUFFER_ADDRESS: usize = 0xb8000;

/// The glyph stored in place of a byte that the display cannot show.
pub const REPLACEMENT_GLYPH: u8 = 0xfe;

/// One of the sixteen palette colors.
#[derive(Debug, Clone, Copy, PartialEq, Eq, Structural)]
pub enum Color {
    Black,
    Blue,
    Green,
    Cyan,
    Red,
    Magenta,
    Brown,
    LightGray,
    DarkGray,
    LightBlue,
    LightGreen,
    LightCyan,
    LightRed,
    Pink,
    Yellow,
    White,
}

/// Palette index of a color, 0 to 15.
pub open spec fn color_index(c: Color) -> u8 {
    match c {
        Color::Black => 0,
        Color::Blue => 1,
        Color::Green => 2,
        Color::Cyan => 3,
        Color::Red => 4,
        Color::Magenta => 5,
        Color::Brown => 6,
        Color::LightGray => 7,
        Color::DarkGray => 8,
        Color::LightBlue => 9,
        Color::LightGreen => 10,
        Color::LightCyan => 11,
        Color::LightRed => 12,
        Color::Pink => 13,
        Color::Yellow => 14,
        Color::White => 15,
    }
}

/// The color with palette index `i` (taken modulo 16).
pub open spec fn color_of_index(i: u8) -> Color {
    let n = i % 16;
    if n == 0 {
        Color::Black
    } else if n == 1 {
        Color::Blue
    } else if n == 2 {
        Color::Green
    } else if n == 3 {
        Color::Cyan
    } else if n == 4 {
        Color::Red
    } else if n == 5 {
        Color::Magenta
    } else if n == 6 {
        Color::Brown
    } else if n == 7 {
        Color::LightGray
    } else if n == 8 {
        Color::DarkGray
    } else if n == 9 {
        Color::LightBlue
    } else if n == 10 {
        Color::LightGreen
    } else if n == 11 {
        Color::LightCyan
    } else if n == 12 {
        Color::LightRed
    } else if n == 13 {
        Color::Pink
    } else if n == 14 {
        Color::Yellow
    } else {
        Color::White
    }
}

impl Color {
    /// The palette index of this color.
    pub fn index(self) -> (r: u8)
        ensures
            r == color_index(self),
            r < 16,
    {
        match self {
            Color::Black => 0,
            Color::Blue => 1,
            Color::Green => 2,
            Color::Cyan => 3,
            Color::Red => 4,
            Color::Magenta => 5,
            Color::Brown => 6,
            Color::LightGray => 7,
            Color::DarkGray => 8,
            Color::LightBlue => 9,
            Color::LightGreen => 10,
            Color::LightCyan => 11,
            Color::LightRed => 12,
            Color::Pink => 13,
            Color::Yellow => 14,
            Color::White => 15,
        }
    }

    /// The color whose palette index is `i`.
    pub fn from_index(i: u8) -> (r: Color)
        requires
            i < 16,
        ensures
            r == color_of_index(i),
            color_index(r) == i,
    {
        match i {
            0 => Color::Black,
            1 => Color::Blue,
            2 => Color::Green,
            3 => Color::Cyan,
            4 => Color::Red,
            5 => Color::Magenta,
            6 => Color::Brown,
            7 => Color::LightGray,
            8 => Color::DarkGray,
            9 => Color::LightBlue,
            10 => Color::LightGreen,
            11 => Color::LightCyan,
            12 => Color::LightRed,
            13 => Color::Pink,
            14 => Color::Yellow,
            _ => Color::White,
        }
    }
}

/// The attribute byte of a foreground/background pair: background in the
/// high nibble, foreground in the low nibble.
pub open spec fn pack_colors(foreground: Color, background: Color) -> u8 {
    (color_index(background) * 16 + color_index(foreground)) as u8
}

/// A packed foreground/background attribute.
#[derive(Debug, Clone, Copy, PartialEq, Eq, Structural)]
pub struct ColorCode(u8);

impl View for ColorCode {
    type V = u8;

    closed spec fn view(&self) -> u8 {
        self.0
    }
}

/// The attribute whose byte is `b`.
pub closed spec fn color_code_of(b: u8) -> ColorCode {
    ColorCode(b)
}

/// An attribute is the one built from its byte, so two attributes with the
/// same byte are the same.
pub proof fn lemma_color_code_view(c: ColorCode)
    ensures
        color_code_of(c@) == c,
{
}

impl ColorCode {
    /// Packs a foreground and a background color into one attribute.
    pub fn new(foreground: Color, background: Color) -> (r: ColorCode)
        ensures
            r@ == pack_colors(foreground, background),
    {
        let f = foreground.index();
        let b = background.index();
        assert((b << 4u8) | f == b * 16 + f) by (bit_vector)
            requires
                b < 16,
                f < 16,
        ;
        ColorCode((b << 4) | f)
    }

    /// The attribute whose byte is `byte`; every byte is a valid attribute.
    pub fn from_byte(byte: u8) -> (r: ColorCode)
        ensures
            r@ == byte,
            r == color_code_of(byte),
    {
        ColorCode(byte)
    }

    /// The attribute byte.
    pub fn as_byte(&self) -> (r: u8)
        ensures
            r == self@,
    {
        self.0
    }

    /// The foreground color: the low nibble.
    pub fn foreground(&self) -> (r: Color)
        ensures
            r == color_of_index(self@ % 16),
            color_index(r) == self@ % 16,
    {
        let v = self.0;
        assert(v & 0x0f == v % 16) by (bit_vector);
        Color::from_index(v & 0x0f)
    }

    /// The background color: the high nibble.
    pub fn background(&self) -> (r: Color)
        ensures
            r == color_of_index(self@ / 16),
            color_index(r) == self@ / 16,
    {
        let v = self.0;
        assert(v >> 4u8 == v / 16) by (bit_vector);
        Color::from_index(v >> 4)
    }
}

/// Splitting an attribute byte into its two colors and packing them again
/// gives back the same byte, for each of the 256 bytes.
pub proof fn lemma_color_code_round_trip(b: u8)
    ensures
        pack_colors(color_of_index(b % 16), color_of_index(b / 16)) == b,
        color_index(color_of_index(b % 16)) == b % 16,
        color_index(color_of_index(b / 16)) == b / 16,
{
}

/// Packing two colors and splitting the byte again gives back the two colors.
pub proof fn lemma_colors_round_trip(foreground: Color, background: Color)
    ensures
        color_of_index(pack_colors(foreground, background) % 16) == foreground,
        color_of_index(pack_colors(foreground, background) / 16) == background,
{
}

/// What one cell shows: a glyph and its attribute.
#[derive(Debug, Clone, Copy, PartialEq, Eq, Structural)]
pub struct ScreenChar {
    pub ascii_character: u8,
    pub color_code: ColorCode,
}

/// The 16-bit value of a cell in display memory: the glyph in the low byte
/// (byte 0 on this little-endian machine) and the attribute in the high byte.
pub open spec fn cell_bits(c: ScreenChar) -> u16 {
    (c.ascii_character as u16 | ((c.color_code@ as u16) << 8u16)) as u16
}

/// The cell that a 16-bit display-memory value shows.
pub open spec fn cell_of_bits(v: u16) -> ScreenChar {
    ScreenChar { ascii_character: (v & 0xff) as u8, color_code: color_code_of((v >> 8u16) as u8) }
}

proof fn lemma_cell_bits_round_trip(c: ScreenChar)
    ensures
        cell_of_bits(cell_bits(c)) == c,
{
    let a = c.ascii_character;
    let k = c.color_code@;
    assert(((a as u16 | ((k as u16) << 8u16)) as u16 & 0xff) as u8 == a) by (bit_vector);
    assert((((a as u16 | ((k as u16) << 8u16)) as u16) >> 8u16) as u8 == k) by (bit_vector);
    lemma_color_code_view(c.color_code);
}

/// The display memory: `BUFFER_HEIGHT` rows of `BUFFER_WIDTH` volatile cells.
pub type Buffer = [[Volatile<u16>; BUFFER_WIDTH]; BUFFER_HEIGHT];

/// `volatile::Volatile`: a value read and written only through volatile
/// operations, which the compiler neither removes nor reorders.
#[verifier::external_type_specification]
#[verifier::external_body]
#[verifier::reject_recursive_types(T)]
pub struct ExVolatile<T: Copy>(Volatile<T>);

/// The value that a volatile cell holds.
pub uninterp spec fn volatile_value(c: Volatile<u16>) -> u16;

/// Relies on `volatile::Volatile::read`: a volatile read returns the value the cell holds.
#[verifier::external_body]
fn read_cell(c: &Volatile<u16>) -> (r: u16)
    ensures
        r == volatile_value(*c),
{
    c.read()
}

/// Relies on `volatile::Volatile::write`: after a volatile write the cell holds the value written.
#[verifier::external_body]
fn write_cell(c: &mut Volatile<u16>, v: u16)
    ensures
        volatile_value(*final(c)) == v,
{
    c.write(v)
}

/// What the grid shows, row by row.
pub open spec fn grid_of(b: Buffer) -> Seq<Seq<ScreenChar>> {
    Seq::new(
        BUFFER_HEIGHT as nat,
        |r: int| Seq::new(BUFFER_WIDTH as nat, |c: int| cell_of_bits(volatile_value(b@[r]@[c]))),
    )
}

/// Whether a byte is shown as it is: printable ASCII or a newline.
pub open spec fn is_printable(b: u8) -> bool {
    (0x20 <= b && b <= 0x7e) || b == 0x0a
}

/// The glyph stored for a byte.
pub open spec fn glyph(b: u8) -> u8 {
    if is_printable(b) {
        b
    } else {
        REPLACEMENT_GLYPH
    }
}

/// A row of blank cells in the given attribute.
pub open spec fn blank_row(color: ColorCode) -> Seq<ScreenChar> {
    Seq::new(BUFFER_WIDTH as nat, |c: int| ScreenChar { ascii_character: 0x20, color_code: color })
}

/// The console as a mathematical value: the grid, the cursor column on the
/// last row, and the attribute that new cells get.
pub struct Screen {
    pub rows: Seq<Seq<ScreenChar>>,
    pub column: nat,
    pub color: ColorCode,
}

impl Screen {
    /// The grid has `BUFFER_HEIGHT` rows of `BUFFER_WIDTH` cells.
    pub open spec fn grid_wf(self) -> bool {
        &&& self.rows.len() == BUFFER_HEIGHT
        &&& forall|r: int| 0 <= r < BUFFER_HEIGHT ==> (#[trigger] self.rows[r]).len() == BUFFER_WIDTH
    }

    /// The grid has its shape and the cursor is within the last row.
    pub open spec fn wf(self) -> bool {
        &&& self.grid_wf()
        &&& self.column <= BUFFER_WIDTH
    }

    /// Every row moves up by one, the top row is lost, the last row is
    /// blanked in the current attribute, and the column returns to 0.
    pub open spec fn scrolled(self) -> Screen {
        Screen {
            rows: Seq::new(
                BUFFER_HEIGHT as nat,
                |r: int|
                    if r < BUFFER_HEIGHT - 1 {
                        self.rows[r + 1]
                    } else {
                        blank_row(self.color)
                    },
            ),
            column: 0,
            color: self.color,
        }
    }

    /// The glyph `g` in the current attribute at the cursor on the last row,
    /// and the cursor one column further.
    pub open spec fn put(self, g: u8) -> Screen {
        let last = BUFFER_HEIGHT - 1;
        Screen {
            rows: self.rows.update(
                last,
                self.rows[last].update(
                    self.column as int,
                    ScreenChar { ascii_character: g, color_code: self.color },
                ),
            ),
            column: self.column + 1,
            color: self.color,
        }
    }

    /// The effect of writing one byte.
    pub open spec fn write_byte(self, b: u8) -> Screen {
        if b == 0x0a {
            self.scrolled()
        } else if self.column >= BUFFER_WIDTH {
            self.scrolled().put(glyph(b))
        } else {
            self.put(glyph(b))
        }
    }

    /// The effect of writing the bytes one after the other.
    pub open spec fn write_bytes(self, bytes: Seq<u8>) -> Screen
        decreases bytes.len(),
    {
        if bytes.len() == 0 {
            self
        } else {
            self.write_bytes(bytes.drop_last()).write_byte(bytes.last())
        }
    }

    /// The same console with another attribute for new cells.
    pub open spec fn with_color(self, color: ColorCode) -> Screen {
        Screen { color, ..self }
    }
}

/// The console writer: the cursor column, the active attribute and the grid.
pub struct Writer {
    column_position: usize,
    color_code: ColorCode,
    buffer: &'static mut Buffer,
}

impl View for Writer {
    type V = Screen;

    closed spec fn view(&self) -> Screen {
        Screen {
            rows: grid_of(*self.buffer),
            column: self.column_position as nat,
            color: self.color_code,
        }
    }
}

impl Writer {
    /// The cursor never stands past the end of the row.
    pub closed spec fn wf(&self) -> bool {
        self.column_position <= BUFFER_WIDTH
    }

    /// The model of a writer always has the grid's shape, and it is a
    /// well-formed console when the writer is.
    pub proof fn lemma_view_wf(&self)
        ensures
            self@.grid_wf(),
            self.wf() <==> self@.wf(),
    {
    }

    /// A writer on `buffer` with the cursor at the start of the last row.
    pub fn new(buffer: &'static mut Buffer, color_code: ColorCode) -> (r: Writer)
        ensures
            r.wf(),
            r@.rows == grid_of(*old(buffer)),
            r@.column == 0,
            r@.color == color_code,
    {
        Writer { column_position: 0, color_code, buffer }
    }

    /// The column where the next glyph goes.
    pub fn column(&self) -> (r: usize)
        ensures
            r == self@.column,
    {
        self.column_position
    }

    /// The attribute that new cells get.
    pub fn color(&self) -> (r: ColorCode)
        ensures
            r == self@.color,
    {
        self.color_code
    }

    /// The cell at `row`, `col`, read through a volatile read.
    pub fn read_char(&self, row: usize, col: usize) -> (r: ScreenChar)
        requires
            row < BUFFER_HEIGHT,
            col < BUFFER_WIDTH,
        ensures
            r == self@.rows[row as int][col as int],
    {
        let v = read_cell(&self.buffer[row][col]);
        v_to_char(v)
    }
}

impl Writer {
    /// Stores `sc` at `row`, `col` through a volatile write.
    fn put_cell(&mut self, row: usize, col: usize, sc: ScreenChar)
        requires
            row < BUFFER_HEIGHT,
            col < BUFFER_WIDTH,
        ensures
            final(self)@ == (Screen {
                rows: old(self)@.rows.update(
                    row as int,
                    old(self)@.rows[row as int].update(col as int, sc),
                ),
                ..old(self)@
            }),
    {
        let v = char_to_v(sc);
        write_cell(&mut self.buffer[row][col], v);
        proof {
            lemma_cell_bits_round_trip(sc);
            assert(self@.rows =~~= old(self)@.rows.update(
                row as int,
                old(self)@.rows[row as int].update(col as int, sc),
            ));
        }
    }

    /// Fills `row` with blanks in the current attribute.
    fn clear_row(&mut self, row: usize)
        requires
            row < BUFFER_HEIGHT,
        ensures
            final(self)@ == (Screen {
                rows: old(self)@.rows.update(row as int, blank_row(old(self)@.color)),
                ..old(self)@
            }),
    {
        let blank = ScreenChar { ascii_character: 0x20, color_code: self.color_code };
        let mut col: usize = 0;
        while col < BUFFER_WIDTH
            invariant
                col <= BUFFER_WIDTH,
                row < BUFFER_HEIGHT,
                blank == (ScreenChar { ascii_character: 0x20, color_code: old(self)@.color }),
                self@.column == old(self)@.column,
                self@.color == old(self)@.color,
                forall|r: int| 0 <= r < BUFFER_HEIGHT && r != row ==> #[trigger] self@.rows[r] == old(self)@.rows[r],
                forall|c: int| 0 <= c < col ==> #[trigger] self@.rows[row as int][c] == blank,
            decreases BUFFER_WIDTH - col,
        {
            self.put_cell(row, col, blank);
            col += 1;
        }
        proof {
            assert(self@.rows[row as int] =~= blank_row(old(self)@.color));
            assert(self@.rows =~= old(self)@.rows.update(row as int, blank_row(old(self)@.color)));
        }
    }

    /// Moves every row up by one, blanks the last row in the current
    /// attribute, and returns the cursor to column 0.
    fn new_line(&mut self)
        ensures
            final(self).wf(),
            final(self)@ == old(self)@.scrolled(),
    {
        let ghost start = self@;
        proof {
            self.lemma_view_wf();
        }
        let mut row: usize = 1;
        while row < BUFFER_HEIGHT
            invariant
                1 <= row <= BUFFER_HEIGHT,
                start.grid_wf(),
                self@.grid_wf(),
                self@.column == start.column,
                self@.color == start.color,
                forall|r: int| 0 <= r < row - 1 ==> #[trigger] self@.rows[r] == start.rows[r + 1],
                forall|r: int| row - 1 <= r < BUFFER_HEIGHT ==> #[trigger] self@.rows[r] == start.rows[r],
            decreases BUFFER_HEIGHT - row,
        {
            let mut col: usize = 0;
            while col < BUFFER_WIDTH
                invariant
                    1 <= row < BUFFER_HEIGHT,
                    col <= BUFFER_WIDTH,
                    start.grid_wf(),
                    self@.grid_wf(),
                    self@.column == start.column,
                    self@.color == start.color,
                    forall|r: int| 0 <= r < row - 1 ==> #[trigger] self@.rows[r] == start.rows[r + 1],
                    forall|r: int| row <= r < BUFFER_HEIGHT ==> #[trigger] self@.rows[r] == start.rows[r],
                    forall|c: int| 0 <= c < col ==> #[trigger] self@.rows[row - 1][c] == start.rows[row as int][c],
                    forall|c: int| col <= c < BUFFER_WIDTH ==> #[trigger] self@.rows[row - 1][c] == start.rows[row - 1][c],
                decreases BUFFER_WIDTH - col,
            {
                let ch = self.read_char(row, col);
                self.put_cell(row - 1, col, ch);
                col += 1;
            }
            assert(self@.rows[row - 1] =~= start.rows[row as int]);
            row += 1;
        }
        self.clear_row(BUFFER_HEIGHT - 1);
        self.column_position = 0;
        assert(self@.rows =~= start.scrolled().rows);
    }

    /// Writes one byte: a newline scrolls; any other byte goes to the cursor
    /// on the last row (after a scroll if the row is full), as itself if it
    /// is printable ASCII and as `REPLACEMENT_GLYPH` otherwise.
    pub fn write_byte(&mut self, byte: u8)
        ensures
            final(self).wf(),
            final(self)@ == old(self)@.write_byte(byte),
    {
        if byte == 0x0a {
            self.new_line();
        } else {
            if self.column_position >= BUFFER_WIDTH {
                self.new_line();
            }
            let row = BUFFER_HEIGHT - 1;
            let col = self.column_position;
            let g = if (0x20 <= byte && byte <= 0x7e) { byte } else { REPLACEMENT_GLYPH };
            let sc = ScreenChar { ascii_character: g, color_code: self.color_code };
            self.put_cell(row, col, sc);
            self.column_position = col + 1;
        }
    }

    /// Writes the bytes of `s` in order, each as `write_byte` does.
    pub fn write_string(&mut self, s: &str)
        ensures
            old(self).wf() ==> final(self).wf(),
            final(self)@ == old(self)@.write_bytes(s.spec_bytes()),
    {
        let bytes = s.as_bytes();
        let mut i: usize = 0;
        while i < bytes.len()
            invariant
                i <= bytes@.len(),
                bytes@ == s.spec_bytes(),
                old(self).wf() ==> self.wf(),
                self@ == old(self)@.write_bytes(bytes@.take(i as int)),
            decreases bytes@.len() - i,
        {
            let b = bytes[i];
            self.write_byte(b);
            proof {
                assert(bytes@.take(i + 1).drop_last() =~= bytes@.take(i as int));
            }
            i += 1;
        }
        assert(bytes@.take(i as int) =~= bytes@);
    }

    /// Makes `color_code` the attribute of subsequent writes.
    pub fn set_color(&mut self, color_code: ColorCode)
        ensures
            final(self).wf() == old(self).wf(),
            final(self)@ == old(self)@.with_color(color_code),
    {
        self.color_code = color_code;
    }

    /// Writes `s` in the attribute `color`, then puts back the attribute
    /// that was active before.
    pub fn write_colored(&mut self, s: &str, color: ColorCode)
        ensures
            old(self).wf() ==> final(self).wf(),
            final(self)@ == old(self)@.with_color(color).write_bytes(s.spec_bytes()).with_color(
                old(self)@.color,
            ),
    {
        let previous_color = self.color_code;
        self.set_color(color);
        self.write_string(s);
        self.reset_color(previous_color);
    }

    /// Puts back `color_code` as the attribute of subsequent writes, after a
    /// write bracketed by `set_color`.
    pub fn reset_color(&mut self, color_code: ColorCode)
        ensures
            final(self).wf() == old(self).wf(),
            final(self)@ == old(self)@.with_color(color_code),
    {
        self.color_code = color_code;
    }
}

/// Writes `s` in the active attribute to the writer behind `lock`, holding
/// the lock for the whole write.
pub fn _print(lock: &Mutex<Writer>, s: &str) {
    let mut guard = lock.lock();
    let writer = guarded(&mut guard);
    writer.write_string(s);
}

/// Writes `s` in `color` to the writer behind `lock` and puts back the
/// attribute that was active, all under one hold of the lock, so that no
/// other writer sees the changed attribute.
pub fn _print_with_color(lock: &Mutex<Writer>, s: &str, color: ColorCode) {
    let mut guard = lock.lock();
    let writer = guarded(&mut guard);
    writer.write_colored(s, color);
}

fn char_to_v(sc: ScreenChar) -> (r: u16)
    ensures
        r == cell_bits(sc),
{
    let a = sc.ascii_character;
    let k = sc.color_code.as_byte();
    a as u16 | ((k as u16) << 8)
}

fn v_to_char(v: u16) -> (r: ScreenChar)
    ensures
        r == cell_of_bits(v),
{
    let a = (v & 0xff) as u8;
    let k = (v >> 8) as u8;
    ScreenChar { ascii_character: a, color_code: ColorCode::from_byte(k) }
}

} // verus!
