//! Facts about writing to the console model of `vga`: how text fills the
//! last row, when it scrolls, and what is stored for unprintable bytes.
use vstd::prelude::*;
use crate::vga::{
    blank_row, glyph, is_printable, REPLACEMENT_GLYPH, Screen, ScreenChar, BUFFER_HEIGHT,
    BUFFER_WIDTH,
};

verus! {

/// The cell that shows byte `b` in attribute `screen.color`.
pub open spec fn shown(screen: Screen, b: u8) -> ScreenChar {
    ScreenChar { ascii_character: glyph(b), color_code: screen.color }
}

/// `row` with the glyphs of `bytes` put in from column `start` on, in `screen.color`.
pub open spec fn row_with(screen: Screen, row: Seq<ScreenChar>, start: int, bytes: Seq<u8>) -> Seq<
    ScreenChar,
> {
    Seq::new(
        row.len(),
        |c: int|
            if start <= c < start + bytes.len() {
                shown(screen, bytes[c - start])
            } else {
                row[c]
            },
    )
}

/// No byte is a newline.
pub open spec fn no_newline(bytes: Seq<u8>) -> bool {
    forall|i: int| 0 <= i < bytes.len() ==> #[trigger] bytes[i] != 0x0a
}

/// Every byte is printable ASCII (newline excluded).
pub open spec fn all_printable(bytes: Seq<u8>) -> bool {
    forall|i: int| 0 <= i < bytes.len() ==> 0x20 <= #[trigger] bytes[i] && bytes[i] <= 0x7e
}

/// The bytes of the lines, each followed by a newline.
pub open spec fn lines_text(lines: Seq<Seq<u8>>) -> Seq<u8>
    decreases lines.len(),
{
    if lines.len() == 0 {
        Seq::empty()
    } else {
        lines_text(lines.drop_last()) + lines.last().push(0x0a)
    }
}

/// Writing one piece of text and then another is writing the two together.
pub proof fn lemma_write_bytes_append(screen: Screen, a: Seq<u8>, b: Seq<u8>)
    ensures
        screen.write_bytes(a + b) == screen.write_bytes(a).write_bytes(b),
    decreases b.len(),
{
    if b.len() == 0 {
        assert(a + b =~= a);
    } else {
        lemma_write_bytes_append(screen, a, b.drop_last());
        assert((a + b).drop_last() =~= a + b.drop_last());
        assert((a + b).last() == b.last());
    }
}

/// Writing a one-byte text is writing that byte.
pub proof fn lemma_write_one(screen: Screen, b: u8)
    ensures
        screen.write_bytes(seq![b]) == screen.write_byte(b),
{
    let one = seq![b];
    assert(one.drop_last() =~= Seq::<u8>::empty());
    assert(screen.write_bytes(one.drop_last()) == screen);
}

/// Text without newlines that fits in the rest of the last row goes there,
/// from the cursor on, and moves the cursor past it; nothing else changes.
pub proof fn lemma_fill_row(screen: Screen, bytes: Seq<u8>)
    requires
        screen.wf(),
        no_newline(bytes),
        screen.column + bytes.len() <= BUFFER_WIDTH,
    ensures
        screen.write_bytes(bytes) == (Screen {
            rows: screen.rows.update(
                BUFFER_HEIGHT - 1,
                row_with(screen, screen.rows[BUFFER_HEIGHT - 1], screen.column as int, bytes),
            ),
            column: screen.column + bytes.len(),
            color: screen.color,
        }),
        screen.write_bytes(bytes).wf(),
    decreases bytes.len(),
{
    let last = BUFFER_HEIGHT - 1;
    if bytes.len() == 0 {
        assert(row_with(screen, screen.rows[last], screen.column as int, bytes) =~= screen.rows[last]);
        assert(screen.rows.update(last, screen.rows[last]) =~= screen.rows);
    } else {
        let init = bytes.drop_last();
        assert forall|i: int| 0 <= i < init.len() implies #[trigger] init[i] != 0x0a by {
            assert(init[i] == bytes[i]);
        }
        lemma_fill_row(screen, init);
        let mid = screen.write_bytes(init);
        assert(bytes.last() == bytes[bytes.len() - 1]);
        assert(mid.rows[last] =~= row_with(screen, screen.rows[last], screen.column as int, init));
        assert(mid.put(glyph(bytes.last())).rows[last] =~= row_with(
            screen,
            screen.rows[last],
            screen.column as int,
            bytes,
        ));
        assert(mid.put(glyph(bytes.last())).rows =~= screen.rows.update(
            last,
            row_with(screen, screen.rows[last], screen.column as int, bytes),
        ));
    }
}

/// Printable text no longer than a row, written at the start of the last
/// row, shows there glyph for glyph in the active attribute.
pub proof fn lemma_text_on_last_row(screen: Screen, s: Seq<u8>)
    requires
        screen.wf(),
        screen.column == 0,
        all_printable(s),
        s.len() <= BUFFER_WIDTH,
    ensures
        forall|i: int|
            0 <= i < s.len() ==> #[trigger] screen.write_bytes(s).rows[BUFFER_HEIGHT - 1][i] == (
            ScreenChar { ascii_character: s[i], color_code: screen.color }),
        screen.write_bytes(s).column == s.len(),
{
    assert forall|i: int| 0 <= i < s.len() implies #[trigger] s[i] != 0x0a by {
        assert(0x20 <= s[i]);
    }
    lemma_fill_row(screen, s);
    assert forall|i: int| 0 <= i < s.len() implies #[trigger] screen.write_bytes(s).rows[BUFFER_HEIGHT
        - 1][i] == (ScreenChar { ascii_character: s[i], color_code: screen.color }) by {
        assert(0x20 <= s[i] && s[i] <= 0x7e);
        assert(is_printable(s[i]));
    }
}

/// A newline moves every row up by one: row 0 then holds what row 1 held,
/// the last row is blank in the active attribute, and the column is 0.
pub proof fn lemma_newline_scrolls(screen: Screen)
    requires
        screen.wf(),
    ensures
        forall|r: int|
            0 <= r < BUFFER_HEIGHT - 1 ==> #[trigger] screen.write_byte(0x0a).rows[r]
                == screen.rows[r + 1],
        screen.write_byte(0x0a).rows[BUFFER_HEIGHT - 1] == blank_row(screen.color),
        screen.write_byte(0x0a).column == 0,
        screen.write_byte(0x0a).color == screen.color,
{
}

/// A line of printable text no longer than a row, written from column 0 and
/// ended by a newline, moves every row up by one and leaves the line on the
/// row above the last one; the last row is blank and the column is 0.
pub proof fn lemma_line_moves_up(screen: Screen, line: Seq<u8>)
    requires
        screen.wf(),
        screen.column == 0,
        no_newline(line),
        line.len() <= BUFFER_WIDTH,
    ensures
        ({
            let after = screen.write_bytes(line.push(0x0a));
            &&& after.wf()
            &&& forall|r: int|
                0 <= r < BUFFER_HEIGHT - 2 ==> #[trigger] after.rows[r] == screen.rows[r + 1]
            &&& after.rows[BUFFER_HEIGHT - 2] == row_with(
                screen,
                screen.rows[BUFFER_HEIGHT - 1],
                0,
                line,
            )
            &&& after.rows[BUFFER_HEIGHT - 1] == blank_row(screen.color)
            &&& after.column == 0
            &&& after.color == screen.color
        }),
{
    lemma_fill_row(screen, line);
    let nl = seq![0x0au8];
    assert(line.push(0x0a) =~= line + nl);
    lemma_write_bytes_append(screen, line, nl);
    let mid = screen.write_bytes(line);
    lemma_write_one(mid, 0x0a);
    assert(mid.scrolled().wf());
}

/// After writing lines of printable text, each no longer than a row and
/// each ended by a newline, from column 0: the last row is blank, the
/// column is 0, and the row `m` above the last starts with the `m`-th
/// line from the end, for each `m` up to the number of lines and below
/// `BUFFER_HEIGHT`; past that line the row is blank, unless the line is the
/// first one, which was written over whatever the last row held.
pub proof fn lemma_lines_scroll_up(screen: Screen, lines: Seq<Seq<u8>>)
    requires
        screen.wf(),
        screen.column == 0,
        forall|j: int| 0 <= j < lines.len() ==> no_newline(#[trigger] lines[j]),
        forall|j: int| 0 <= j < lines.len() ==> (#[trigger] lines[j]).len() <= BUFFER_WIDTH,
    ensures
        ({
            let after = screen.write_bytes(lines_text(lines));
            &&& after.wf()
            &&& after.column == 0
            &&& after.color == screen.color
            &&& lines.len() > 0 ==> after.rows[BUFFER_HEIGHT - 1] == blank_row(screen.color)
            &&& forall|m: int, i: int|
                1 <= m <= lines.len() && m < BUFFER_HEIGHT && 0 <= i < lines[lines.len()
                    - m].len() ==> #[trigger] after.rows[BUFFER_HEIGHT - 1 - m][i] == shown(
                    screen,
                    lines[lines.len() - m][i],
                )
            &&& forall|m: int, i: int|
                1 <= m < lines.len() && m < BUFFER_HEIGHT && lines[lines.len() - m].len() <= i
                    < BUFFER_WIDTH ==> #[trigger] after.rows[BUFFER_HEIGHT - 1 - m][i]
                    == blank_row(screen.color)[i]
        }),
    decreases lines.len(),
{
    if lines.len() == 0 {
    } else {
        let init = lines.drop_last();
        let line = lines.last();
        assert forall|j: int| 0 <= j < init.len() implies no_newline(#[trigger] init[j]) by {
            assert(init[j] == lines[j]);
        }
        assert forall|j: int| 0 <= j < init.len() implies (#[trigger] init[j]).len()
            <= BUFFER_WIDTH by {
            assert(init[j] == lines[j]);
        }
        lemma_lines_scroll_up(screen, init);
        let mid = screen.write_bytes(lines_text(init));
        assert(line == lines[lines.len() - 1]);
        lemma_write_bytes_append(screen, lines_text(init), line.push(0x0a));
        lemma_line_moves_up(mid, line);
        let after = screen.write_bytes(lines_text(lines));
        assert(after == mid.write_bytes(line.push(0x0a)));
        assert forall|m: int, i: int|
            1 <= m <= lines.len() && m < BUFFER_HEIGHT && 0 <= i < lines[lines.len()
                - m].len() implies #[trigger] after.rows[BUFFER_HEIGHT - 1 - m][i] == shown(
            screen,
            lines[lines.len() - m][i],
        ) by {
            if m == 1 {
            } else {
                assert(lines[lines.len() - m] == init[init.len() - (m - 1)]);
                assert(after.rows[BUFFER_HEIGHT - 1 - m] == mid.rows[BUFFER_HEIGHT - 1 - (m - 1)]);
            }
        }
        assert forall|m: int, i: int|
            1 <= m < lines.len() && m < BUFFER_HEIGHT && lines[lines.len() - m].len() <= i
                < BUFFER_WIDTH implies #[trigger] after.rows[BUFFER_HEIGHT - 1 - m][i]
            == blank_row(screen.color)[i] by {
            if m == 1 {
                assert(init.len() > 0);
                assert(mid.rows[BUFFER_HEIGHT - 1] == blank_row(screen.color));
                assert(after.rows[BUFFER_HEIGHT - 2] == row_with(
                    mid,
                    mid.rows[BUFFER_HEIGHT - 1],
                    0,
                    line,
                ));
            } else {
                assert(lines[lines.len() - m] == init[init.len() - (m - 1)]);
                assert(after.rows[BUFFER_HEIGHT - 1 - m] == mid.rows[BUFFER_HEIGHT - 1 - (m - 1)]);
            }
        }
    }
}

/// Writing `BUFFER_HEIGHT + 1` newline-ended lines of printable text, each
/// no longer than a row, from column 0: the first two lines are gone, each
/// row `r` above the last holds line `r + 2` followed by blanks, the last
/// row is blank, and the column is 0.
pub proof fn lemma_full_screen_of_lines(screen: Screen, lines: Seq<Seq<u8>>)
    requires
        screen.wf(),
        screen.column == 0,
        lines.len() == BUFFER_HEIGHT + 1,
        forall|j: int| 0 <= j < lines.len() ==> all_printable(#[trigger] lines[j]),
        forall|j: int| 0 <= j < lines.len() ==> (#[trigger] lines[j]).len() <= BUFFER_WIDTH,
    ensures
        ({
            let after = screen.write_bytes(lines_text(lines));
            &&& after.column == 0
            &&& after.rows[BUFFER_HEIGHT - 1] == blank_row(screen.color)
            &&& forall|r: int, i: int|
                0 <= r < BUFFER_HEIGHT - 1 && 0 <= i < lines[r + 2].len()
                    ==> #[trigger] after.rows[r][i] == (ScreenChar {
                    ascii_character: lines[r + 2][i],
                    color_code: screen.color,
                })
            &&& forall|r: int, i: int|
                0 <= r < BUFFER_HEIGHT - 1 && lines[r + 2].len() <= i < BUFFER_WIDTH
                    ==> #[trigger] after.rows[r][i] == (ScreenChar {
                    ascii_character: 0x20,
                    color_code: screen.color,
                })
        }),
{
    assert forall|j: int| 0 <= j < lines.len() implies no_newline(#[trigger] lines[j]) by {
        assert forall|i: int| 0 <= i < lines[j].len() implies #[trigger] lines[j][i] != 0x0a by {
            assert(all_printable(lines[j]));
            assert(0x20 <= lines[j][i]);
        }
    }
    lemma_lines_scroll_up(screen, lines);
    let after = screen.write_bytes(lines_text(lines));
    assert forall|r: int, i: int| 0 <= r < BUFFER_HEIGHT - 1 && 0 <= i < lines[r + 2].len()
        implies #[trigger] after.rows[r][i] == (ScreenChar {
        ascii_character: lines[r + 2][i],
        color_code: screen.color,
    }) by {
        let m = BUFFER_HEIGHT - 1 - r;
        assert(lines.len() - m == r + 2);
        assert(after.rows[BUFFER_HEIGHT - 1 - m][i] == shown(screen, lines[lines.len() - m][i]));
        assert(all_printable(lines[r + 2]));
        assert(0x20 <= lines[r + 2][i] && lines[r + 2][i] <= 0x7e);
    }
    assert forall|r: int, i: int| 0 <= r < BUFFER_HEIGHT - 1 && lines[r + 2].len() <= i
        < BUFFER_WIDTH implies #[trigger] after.rows[r][i] == (ScreenChar {
        ascii_character: 0x20,
        color_code: screen.color,
    }) by {
        let m = BUFFER_HEIGHT - 1 - r;
        assert(lines.len() - m == r + 2);
        assert(after.rows[BUFFER_HEIGHT - 1 - m][i] == blank_row(screen.color)[i]);
    }
}

/// Writing `BUFFER_WIDTH + k` printable bytes (`1 <= k <= BUFFER_WIDTH`) with
/// no newline from column 0 scrolls exactly once, after the
/// `BUFFER_WIDTH`-th byte: the first `BUFFER_WIDTH` bytes fill the row above
/// the last, the other rows above moved up by one, the last `k` bytes stand
/// at columns `0..k` of the freshly blanked last row, and the column is `k`.
pub proof fn lemma_wrap_once(screen: Screen, bytes: Seq<u8>, k: int)
    requires
        screen.wf(),
        screen.column == 0,
        1 <= k <= BUFFER_WIDTH,
        bytes.len() == BUFFER_WIDTH + k,
        all_printable(bytes),
    ensures
        ({
            let after = screen.write_bytes(bytes);
            &&& forall|r: int|
                0 <= r < BUFFER_HEIGHT - 2 ==> #[trigger] after.rows[r] == screen.rows[r + 1]
            &&& forall|c: int|
                0 <= c < BUFFER_WIDTH ==> #[trigger] after.rows[BUFFER_HEIGHT - 2][c] == (
                ScreenChar { ascii_character: bytes[c], color_code: screen.color })
            &&& forall|c: int|
                0 <= c < k ==> #[trigger] after.rows[BUFFER_HEIGHT - 1][c] == (ScreenChar {
                    ascii_character: bytes[BUFFER_WIDTH + c],
                    color_code: screen.color,
                })
            &&& forall|c: int|
                k <= c < BUFFER_WIDTH ==> #[trigger] after.rows[BUFFER_HEIGHT - 1][c]
                    == blank_row(screen.color)[c]
            &&& after.column == k
        }),
{
    let w = BUFFER_WIDTH as int;
    let last = BUFFER_HEIGHT - 1;
    assert forall|i: int| 0 <= i < bytes.len() implies #[trigger] bytes[i] != 0x0a && glyph(
        bytes[i],
    ) == bytes[i] by {
        assert(0x20 <= bytes[i] && bytes[i] <= 0x7e);
    }
    let first = bytes.take(w);
    let second = bytes.skip(w);
    let head = second.take(1);
    let rest = second.skip(1);
    assert(bytes =~= first + second);
    assert(second =~= head + rest);
    assert forall|i: int| 0 <= i < first.len() implies #[trigger] first[i] != 0x0a by {
        assert(first[i] == bytes[i]);
    }
    assert forall|i: int| 0 <= i < rest.len() implies #[trigger] rest[i] != 0x0a by {
        assert(rest[i] == bytes[w + 1 + i]);
    }
    lemma_write_bytes_append(screen, first, second);
    lemma_fill_row(screen, first);
    let s1 = screen.write_bytes(first);
    lemma_write_bytes_append(s1, head, rest);
    assert(head =~= seq![bytes[w]]);
    lemma_write_one(s1, bytes[w]);
    let s2 = s1.write_bytes(head);
    assert(s2 == s1.write_byte(bytes[w]));
    assert(s1.scrolled().wf());
    assert(s2 == s1.scrolled().put(glyph(bytes[w])));
    assert(s2.wf());
    lemma_fill_row(s2, rest);
    let after = s2.write_bytes(rest);
    assert(after == screen.write_bytes(bytes));
    assert forall|c: int| 0 <= c < w implies #[trigger] after.rows[BUFFER_HEIGHT - 2][c] == (
    ScreenChar { ascii_character: bytes[c], color_code: screen.color }) by {
        assert(after.rows[BUFFER_HEIGHT - 2] == s1.rows[last]);
        assert(first[c] == bytes[c]);
    }
    assert forall|c: int| 0 <= c < k implies #[trigger] after.rows[BUFFER_HEIGHT - 1][c] == (
    ScreenChar { ascii_character: bytes[w + c], color_code: screen.color }) by {
        if c > 0 {
            assert(rest[c - 1] == bytes[w + c]);
        }
    }
}

/// A byte that is neither printable ASCII nor a newline is stored as
/// `REPLACEMENT_GLYPH`, wherever the cursor stands, and so never as itself
/// (unless it is that glyph).
pub proof fn lemma_unprintable_replaced(screen: Screen, b: u8)
    requires
        screen.wf(),
        !is_printable(b),
    ensures
        ({
            let after = screen.write_byte(b);
            &&& after.column >= 1
            &&& after.rows[BUFFER_HEIGHT - 1][after.column - 1].ascii_character
                == REPLACEMENT_GLYPH
            &&& b != REPLACEMENT_GLYPH ==> after.rows[BUFFER_HEIGHT - 1][after.column
                - 1].ascii_character != b
        }),
{
    let last = BUFFER_HEIGHT - 1;
    let g = ScreenChar { ascii_character: REPLACEMENT_GLYPH, color_code: screen.color };
    assert(b != 0x0a);
    assert(glyph(b) == REPLACEMENT_GLYPH);
    if screen.column >= BUFFER_WIDTH {
        let sc = screen.scrolled();
        assert(sc.wf());
        assert(sc.put(glyph(b)).rows[last] == sc.rows[last].update(0, g));
        assert(screen.write_byte(b) == sc.put(glyph(b)));
        assert(sc.put(glyph(b)).rows[last][0] == g);
    } else {
        assert(screen.write_byte(b) == screen.put(glyph(b)));
        assert(screen.put(glyph(b)).rows[last][screen.column as int] == g);
        assert(screen.put(glyph(b)).rows[last] == screen.rows[last].update(
            screen.column as int,
            g,
        ));
    }
}

} // verus!
