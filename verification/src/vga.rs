//! The text-mode display model: an 80×25 grid of character cells with a
//! cursor and a current color. Writing advances the cursor, wraps at the
//! end of a line, and scrolls the grid one line up when the last row is
//! full. The platform copies the grid into the hardware framebuffer; this
//! module holds the writer's entire logic.
use vstd::prelude::*;

use vstd::string::StrSliceExecFns;

verus! {

/// Columns of the text-mode screen.
pub const VGA_WIDTH: usize = 80;

/// Rows of the text-mode screen.
pub const VGA_HEIGHT: usize = 25;

/// The sixteen colors of the text-mode palette, in palette order.
#[derive(Clone, Copy, Debug, PartialEq, Eq, Structural)]
pub enum VGAColor {
    Black,
    Blue,
    Green,
    Cyan,
    Red,
    Magenta,
    Brown,
    LightGray,
    DarkGray,
    LightBlue,
    LightGreen,
    LightCyan,
    LightRed,
    Pink,
    Yellow,
    White,
}

impl VGAColor {
    /// The color's palette index, as the attribute byte encodes it.
    pub open spec fn index_spec(self) -> u8 {
        match self {
            VGAColor::Black => 0,
            VGAColor::Blue => 1,
            VGAColor::Green => 2,
            VGAColor::Cyan => 3,
            VGAColor::Red => 4,
            VGAColor::Magenta => 5,
            VGAColor::Brown => 6,
            VGAColor::LightGray => 7,
            VGAColor::DarkGray => 8,
            VGAColor::LightBlue => 9,
            VGAColor::LightGreen => 10,
            VGAColor::LightCyan => 11,
            VGAColor::LightRed => 12,
            VGAColor::Pink => 13,
            VGAColor::Yellow => 14,
            VGAColor::White => 15,
        }
    }

    pub fn index(self) -> (r: u8)
        ensures
            r == self.index_spec(),
            r <= 15,
    {
        match self {
            VGAColor::Black => 0,
            VGAColor::Blue => 1,
            VGAColor::Green => 2,
            VGAColor::Cyan => 3,
            VGAColor::Red => 4,
            VGAColor::Magenta => 5,
            VGAColor::Brown => 6,
            VGAColor::LightGray => 7,
            VGAColor::DarkGray => 8,
            VGAColor::LightBlue => 9,
            VGAColor::LightGreen => 10,
            VGAColor::LightCyan => 11,
            VGAColor::LightRed => 12,
            VGAColor::Pink => 13,
            VGAColor::Yellow => 14,
            VGAColor::White => 15,
        }
    }
}

/// The text-mode attribute byte: background color in the high four bits,
/// foreground color in the low four.
#[derive(Clone, Copy, Debug, PartialEq, Eq, Structural)]
pub struct VGAColorCode(u8);

impl VGAColorCode {
    /// The packed attribute byte.
    pub closed spec fn value(self) -> u8 {
        self.0
    }

    /// Packs a foreground and a background color into one attribute byte:
    /// sixteen times the background's palette index plus the foreground's.
    pub fn new(fg: VGAColor, bg: VGAColor) -> (r: VGAColorCode)
        ensures
            r.value() == bg.index_spec() * 16 + fg.index_spec(),
    {
        let f = fg.index();
        let b = bg.index();
        proof {
            assert((b << 4) | f == b * 16 + f) by (bit_vector)
                requires
                    f <= 15 && b <= 15,
            ;
        }
        VGAColorCode((b << 4) | f)
    }

    pub fn as_u8(&self) -> (r: u8)
        ensures
            r == self.value(),
    {
        self.0
    }
}

/// One cell of the screen: a code-page byte and its attribute byte.
#[derive(Clone, Copy, Debug, PartialEq, Eq, Structural)]
pub struct VGAScreenCharacter {
    pub content: u8,
    pub color_code: VGAColorCode,
}

/// The writer's abstract state: cursor position, current color, and the
/// cell grid in row-major order.
#[verifier::ext_equal]
pub ghost struct VGAState {
    pub row: int,
    pub column: int,
    pub color: VGAColorCode,
    pub cells: Seq<VGAScreenCharacter>,
}

/// A space in the given color: what clearing leaves behind.
pub open spec fn blank_char(color: VGAColorCode) -> VGAScreenCharacter {
    VGAScreenCharacter { content: 32, color_code: color }
}

/// A sensible screen: cursor on the grid (the column may rest one past the
/// last cell of a line until the next write wraps it), full-sized grid.
pub open spec fn state_wf(s: VGAState) -> bool {
    &&& 0 <= s.row < VGA_HEIGHT
    &&& 0 <= s.column <= VGA_WIDTH
    &&& s.cells.len() == VGA_HEIGHT * VGA_WIDTH
}

/// The grid after scrolling one line up: every row takes the contents of
/// the row below it, and the last row is blanked in the given color.
pub open spec fn scrolled(cells: Seq<VGAScreenCharacter>, color: VGAColorCode) -> Seq<
    VGAScreenCharacter,
> {
    Seq::new(
        cells.len(),
        |i: int|
            if i < (VGA_HEIGHT - 1) * (VGA_WIDTH as int) {
                cells[i + VGA_WIDTH]
            } else {
                blank_char(color)
            },
    )
}

/// A line break: on any row but the last, the cursor moves to the start of
/// the next row; on the last row, the grid scrolls up and the cursor moves
/// to the start of the (still last) row.
pub open spec fn newline_spec(s: VGAState) -> VGAState {
    if s.row == VGA_HEIGHT - 1 {
        VGAState { row: s.row, column: 0, color: s.color, cells: scrolled(s.cells, s.color) }
    } else {
        VGAState { row: s.row + 1, column: 0, color: s.color, cells: s.cells }
    }
}

/// Writing one raw byte: a cursor past the end of the line first breaks to
/// a new line, then the byte lands at the cursor in the current color and
/// the cursor advances one cell.
pub open spec fn write_byte_spec(s: VGAState, byte: u8) -> VGAState {
    let s1 = if s.column >= VGA_WIDTH {
        newline_spec(s)
    } else {
        s
    };
    VGAState {
        row: s1.row,
        column: s1.column + 1,
        color: s1.color,
        cells: s1.cells.update(
            s1.row * (VGA_WIDTH as int) + s1.column,
            VGAScreenCharacter { content: byte, color_code: s1.color },
        ),
    }
}

/// The byte a character turns into before classification: the character's
/// scalar value truncated to one byte.
pub open spec fn byte_of_char(ch: char) -> u8 {
    (((ch as u32) % 256) as u8)
}

/// Writing one character: a newline breaks the line, a printable one-byte
/// character is written as itself, anything else prints the replacement
/// glyph.
pub open spec fn write_char_spec(s: VGAState, ch: char) -> VGAState {
    let b = byte_of_char(ch);
    if b == 10 {
        newline_spec(s)
    } else if 0x20 <= b && b <= 0x7e {
        write_byte_spec(s, b)
    } else {
        write_byte_spec(s, 0xfe)
    }
}

/// Writing a whole sequence of characters, left to right.
pub open spec fn write_chars_spec(s: VGAState, chars: Seq<char>) -> VGAState
    decreases chars.len(),
{
    if chars.len() == 0 {
        s
    } else {
        write_char_spec(write_chars_spec(s, chars.drop_last()), chars.last())
    }
}

/// The grid with one row blanked in the given color.
spec fn row_cleared(cells: Seq<VGAScreenCharacter>, row: int, color: VGAColorCode) -> Seq<
    VGAScreenCharacter,
> {
    Seq::new(
        cells.len(),
        |i: int|
            if row * (VGA_WIDTH as int) <= i < row * (VGA_WIDTH as int) + VGA_WIDTH {
                blank_char(color)
            } else {
                cells[i]
            },
    )
}

/// The text-mode writer: cursor, current color, and the owned cell grid.
pub struct VGAWriter {
    row: usize,
    column: usize,
    color_code: VGAColorCode,
    buffer: Vec<VGAScreenCharacter>,
}

impl VGAWriter {
    /// The abstract state of the writer.
    pub closed spec fn state(self) -> VGAState {
        VGAState {
            row: self.row as int,
            column: self.column as int,
            color: self.color_code,
            cells: self.buffer@,
        }
    }

    pub open spec fn wf(self) -> bool {
        state_wf(self.state())
    }

    /// A writer over a blank screen, cursor at the top left, writing in the
    /// given color.
    pub fn new(color_code: VGAColorCode) -> (w: VGAWriter)
        ensures
            w.wf(),
            w.state() == (VGAState {
                row: 0,
                column: 0,
                color: color_code,
                cells: Seq::new((VGA_HEIGHT * VGA_WIDTH) as nat, |i: int| blank_char(color_code)),
            }),
    {
        let mut buffer: Vec<VGAScreenCharacter> = Vec::new();
        let mut i: usize = 0;
        while i < VGA_HEIGHT * VGA_WIDTH
            invariant
                i <= VGA_HEIGHT * VGA_WIDTH,
                buffer@ == Seq::new(i as nat, |k: int| blank_char(color_code)),
            decreases VGA_HEIGHT * VGA_WIDTH - i,
        {
            buffer.push(VGAScreenCharacter { content: 32, color_code });
            i = i + 1;
            proof {
                assert(buffer@ =~= Seq::new(i as nat, |k: int| blank_char(color_code)));
            }
        }
        let w = VGAWriter { row: 0, column: 0, color_code, buffer };
        proof {
            assert(w.state() =~= (VGAState {
                row: 0,
                column: 0,
                color: color_code,
                cells: Seq::new((VGA_HEIGHT * VGA_WIDTH) as nat, |i: int| blank_char(color_code)),
            }));
        }
        w
    }

    /// Blanks one row in the current color; everything else stays.
    fn clear_row(&mut self, row: usize)
        requires
            old(self).wf(),
            row < VGA_HEIGHT,
        ensures
            final(self).wf(),
            final(self).state() == (VGAState {
                row: old(self).state().row,
                column: old(self).state().column,
                color: old(self).state().color,
                cells: row_cleared(old(self).state().cells, row as int, old(self).state().color),
            }),
    {
        let mut column: usize = 0;
        while column < VGA_WIDTH
            invariant
                old(self).wf(),
                row < VGA_HEIGHT,
                column <= VGA_WIDTH,
                self.row == old(self).row,
                self.column == old(self).column,
                self.color_code == old(self).color_code,
                self.buffer@.len() == old(self).buffer@.len(),
                forall|i: int|
                    0 <= i < self.buffer@.len() ==> #[trigger] self.buffer@[i] == (
                    if row * (VGA_WIDTH as int) <= i < row * (VGA_WIDTH as int) + column {
                        blank_char(old(self).color_code)
                    } else {
                        old(self).buffer@[i]
                    }),
            decreases VGA_WIDTH - column,
        {
            let idx = row * VGA_WIDTH + column;
            self.buffer[idx] = VGAScreenCharacter { content: 32, color_code: self.color_code };
            column = column + 1;
        }
        proof {
            assert(self.state().cells =~= row_cleared(
                old(self).state().cells,
                row as int,
                old(self).state().color,
            ));
            assert(self.state() =~= (VGAState {
                row: old(self).state().row,
                column: old(self).state().column,
                color: old(self).state().color,
                cells: row_cleared(old(self).state().cells, row as int, old(self).state().color),
            }));
        }
    }

    /// Breaks the line: moves the cursor to the start of the next row, or
    /// scrolls the grid one line up when the cursor stands on the last row.
    fn write_new_line(&mut self)
        requires
            old(self).wf(),
        ensures
            final(self).wf(),
            final(self).state() == newline_spec(old(self).state()),
    {
        if self.row == VGA_HEIGHT - 1 {
            let mut row: usize = 1;
            while row < VGA_HEIGHT
                invariant
                    old(self).wf(),
                    1 <= row <= VGA_HEIGHT,
                    self.row == old(self).row,
                    self.column == old(self).column,
                    self.color_code == old(self).color_code,
                    self.buffer@.len() == old(self).buffer@.len(),
                    forall|i: int|
                        0 <= i < self.buffer@.len() ==> #[trigger] self.buffer@[i] == (
                        if i < (row - 1) * (VGA_WIDTH as int) {
                            old(self).buffer@[i + VGA_WIDTH]
                        } else {
                            old(self).buffer@[i]
                        }),
                decreases VGA_HEIGHT - row,
            {
                let mut column: usize = 0;
                while column < VGA_WIDTH
                    invariant
                        old(self).wf(),
                        1 <= row < VGA_HEIGHT,
                        column <= VGA_WIDTH,
                        self.row == old(self).row,
                        self.column == old(self).column,
                        self.color_code == old(self).color_code,
                        self.buffer@.len() == old(self).buffer@.len(),
                        forall|i: int|
                            0 <= i < self.buffer@.len() ==> #[trigger] self.buffer@[i] == (
                            if i < (row - 1) * (VGA_WIDTH as int) + column {
                                old(self).buffer@[i + VGA_WIDTH]
                            } else {
                                old(self).buffer@[i]
                            }),
                    decreases VGA_WIDTH - column,
                {
                    let from = row * VGA_WIDTH + column;
                    let to = row * VGA_WIDTH + column - VGA_WIDTH;
                    let ch = self.buffer[from];
                    proof {
                        assert(ch == old(self).buffer@[from as int]);
                    }
                    self.buffer[to] = ch;
                    column = column + 1;
                }
                row = row + 1;
            }
            self.clear_row(VGA_HEIGHT - 1);
            self.column = 0;
            proof {
                assert(self.state().cells =~= scrolled(
                    old(self).state().cells,
                    old(self).state().color,
                ));
                assert(self.state() =~= newline_spec(old(self).state()));
            }
        } else {
            self.row = self.row + 1;
            self.column = 0;
            proof {
                assert(self.state() =~= newline_spec(old(self).state()));
            }
        }
    }

    /// Writes one raw byte at the cursor in the current color, wrapping to
    /// a new line first when the cursor stands past the end of the line.
    pub fn write_byte(&mut self, byte: u8)
        requires
            old(self).wf(),
        ensures
            final(self).wf(),
            final(self).state() == write_byte_spec(old(self).state(), byte),
    {
        if self.column >= VGA_WIDTH {
            self.write_new_line();
        }
        let idx = self.row * VGA_WIDTH + self.column;
        self.buffer[idx] = VGAScreenCharacter { content: byte, color_code: self.color_code };
        self.column = self.column + 1;
        proof {
            assert(self.state() =~= write_byte_spec(old(self).state(), byte));
        }
    }

    /// Writes one character: a newline breaks the line, a printable
    /// one-byte character is written as itself, anything else prints the
    /// replacement glyph. The character's scalar value is truncated to one
    /// byte before classification.
    pub fn write_char(&mut self, ch: char)
        requires
            old(self).wf(),
        ensures
            final(self).wf(),
            final(self).state() == write_char_spec(old(self).state(), ch),
    {
        let code = ch as u32;
        let b = (code % 256) as u8;
        if b == 10 {
            self.write_new_line();
        } else if 0x20 <= b && b <= 0x7e {
            self.write_byte(b);
        } else {
            self.write_byte(0xfe);
        }
    }

    /// Writes every character of the string, left to right.
    pub fn write_str(&mut self, s: &str)
        requires
            old(self).wf(),
        ensures
            final(self).wf(),
            final(self).state() == write_chars_spec(old(self).state(), s@),
    {
        let n = s.unicode_len();
        let mut i: usize = 0;
        while i < n
            invariant
                i <= n,
                n == s@.len(),
                self.wf(),
                self.state() == write_chars_spec(old(self).state(), s@.take(i as int)),
            decreases n - i,
        {
            let ch = s.get_char(i);
            self.write_char(ch);
            proof {
                assert(s@.take(i as int + 1).drop_last() =~= s@.take(i as int));
                assert(s@.take(i as int + 1).last() == s@[i as int]);
            }
            i = i + 1;
        }
        proof {
            assert(s@.take(n as int) =~= s@);
        }
    }

    /// The byte stored in the given cell.
    pub fn char_at(&self, row: usize, column: usize) -> (r: u8)
        requires
            self.wf(),
            row < VGA_HEIGHT,
            column < VGA_WIDTH,
        ensures
            r == self.state().cells[row * (VGA_WIDTH as int) + column].content,
    {
        self.buffer[row * VGA_WIDTH + column].content
    }

    /// The cursor's row.
    pub fn cursor_row(&self) -> (r: usize)
        ensures
            r == self.state().row,
    {
        self.row
    }

    /// The cursor's column.
    pub fn cursor_column(&self) -> (r: usize)
        ensures
            r == self.state().column,
    {
        self.column
    }
}

} // verus!
