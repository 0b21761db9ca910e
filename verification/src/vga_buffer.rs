//! The text display: a grid of 25 rows of 80 coloured glyphs, written at a
//! cursor and scrolled up line by line.

use vstd::array::*;
use vstd::prelude::*;
use vstd::string::*;

verus! {

/// The sixteen colours of the text mode.
#[derive(Debug, Clone, Copy, PartialEq, Eq, Structural)]
pub enum Color {
    Black,
    Blue,
    Green,
    Cyan,
    Red,
    Magenta,
    Brown,
    LightGray,
    DarkGray,
    LightBlue,
    LightGreen,
    LightCyan,
    LightRed,
    Pink,
    Yellow,
    White,
}

impl Color {
    /// The colour's number in the text mode's palette.
    pub open spec fn number(self) -> u8 {
        match self {
            Color::Black => 0,
            Color::Blue => 1,
            Color::Green => 2,
            Color::Cyan => 3,
            Color::Red => 4,
            Color::Magenta => 5,
            Color::Brown => 6,
            Color::LightGray => 7,
            Color::DarkGray => 8,
            Color::LightBlue => 9,
            Color::LightGreen => 10,
            Color::LightCyan => 11,
            Color::LightRed => 12,
            Color::Pink => 13,
            Color::Yellow => 14,
            Color::White => 15,
        }
    }

    /// Computes the colour's number in the text mode's palette.
    pub fn code(self) -> (number: u8)
        ensures
            number == self.number(),
            number <= 15,
    {
        match self {
            Color::Black => 0,
            Color::Blue => 1,
            Color::Green => 2,
            Color::Cyan => 3,
            Color::Red => 4,
            Color::Magenta => 5,
            Color::Brown => 6,
            Color::LightGray => 7,
            Color::DarkGray => 8,
            Color::LightBlue => 9,
            Color::LightGreen => 10,
            Color::LightCyan => 11,
            Color::LightRed => 12,
            Color::Pink => 13,
            Color::Yellow => 14,
            Color::White => 15,
        }
    }
}

/// A foreground and a background colour in one byte: the background in the
/// high four bits, the foreground in the low four.
#[derive(Debug, Clone, Copy, PartialEq, Eq, Structural)]
pub struct ColorCode(pub u8);

impl ColorCode {
    /// Packs a foreground and a background colour.
    pub fn new(foreground: Color, background: Color) -> (code: ColorCode)
        ensures
            code.0 == background.number() * 16 + foreground.number(),
    {
        let high: u8 = background.code();
        let low: u8 = foreground.code();
        assert((high << 4u8) | low == high * 16 + low) by (bit_vector)
            requires
                high <= 15,
                low <= 15,
        ;
        ColorCode((high << 4u8) | low)
    }
}

/// One cell of the display: a glyph and its colours.
#[derive(Debug, Clone, Copy, PartialEq, Eq, Structural)]
pub struct ScreenChar {
    pub ascii_character: u8,
    pub color_code: ColorCode,
}

/// The number of rows of the display.
pub const BUFFER_HEIGHT: usize = 25;

/// The number of glyphs in a row.
pub const BUFFER_WIDTH: usize = 80;

/// The number of cells of the display.
pub const BUFFER_CELLS: usize = 2000;

/// The glyph shown in place of a byte that has none.
pub const UNPRINTABLE: u8 = 0xfe;

/// A display as a mathematical value.
pub struct WriterView {
    /// The cursor's row.
    pub row: usize,
    /// The cursor's column; `BUFFER_WIDTH` when the row is full.
    pub column: usize,
    /// The colours in which glyphs are written.
    pub color: ColorCode,
    /// The cells, row after row from the top.
    pub cells: Seq<ScreenChar>,
}

/// An empty cell in the given colours.
pub open spec fn blank(color: ColorCode) -> ScreenChar {
    ScreenChar { ascii_character: 0x20, color_code: color }
}

/// The place of a cell in the sequence of cells.
pub open spec fn cell_index(row: int, column: int) -> int {
    row * BUFFER_WIDTH + column
}

impl WriterView {
    /// The cursor is on the display and every cell is there.
    pub open spec fn wf(self) -> bool {
        &&& self.row < BUFFER_HEIGHT
        &&& self.column <= BUFFER_WIDTH
        &&& self.cells.len() == BUFFER_HEIGHT * BUFFER_WIDTH
    }

    /// The display after a line feed: every row moves up by one, the top row
    /// is lost, the bottom row is empty and the cursor is at the start of its
    /// row.
    pub open spec fn scrolled(self) -> WriterView {
        WriterView {
            row: self.row,
            column: 0,
            color: self.color,
            cells: self.cells.skip(BUFFER_WIDTH as int) + Seq::new(
                BUFFER_WIDTH as nat,
                |i: int| blank(self.color),
            ),
        }
    }

    /// The display after one byte has been written: a line feed scrolls; any
    /// other byte goes to the cursor's cell, after a scroll if the row was
    /// full, and moves the cursor on.
    pub open spec fn after_byte(self, byte: u8) -> WriterView {
        if byte == 0x0a {
            self.scrolled()
        } else {
            let start = if self.column >= BUFFER_WIDTH {
                self.scrolled()
            } else {
                self
            };
            WriterView {
                row: start.row,
                column: (start.column + 1) as usize,
                color: start.color,
                cells: start.cells.update(
                    cell_index(start.row as int, start.column as int),
                    ScreenChar { ascii_character: byte, color_code: start.color },
                ),
            }
        }
    }

    /// The display after the bytes of a text have been written, each byte
    /// without a glyph as `UNPRINTABLE`.
    pub open spec fn after_bytes(self, bytes: Seq<u8>) -> WriterView
        decreases bytes.len(),
    {
        if bytes.len() == 0 {
            self
        } else {
            self.after_bytes(bytes.drop_last()).after_byte(shown(bytes.last()))
        }
    }

    /// Whether the cursor has a cell before it to go back to.
    pub open spec fn can_retreat(self) -> bool {
        self.column > 0 || self.row > 0
    }

    /// The display after the last glyph has been erased: the cursor goes back
    /// one cell, to the end of the row above from the start of a row, and that
    /// cell is emptied.
    pub open spec fn after_erase(self) -> WriterView {
        let row = if self.column == 0 {
            (self.row - 1) as usize
        } else {
            self.row
        };
        let column = if self.column == 0 {
            (BUFFER_WIDTH - 1) as usize
        } else {
            (self.column - 1) as usize
        };
        WriterView {
            row,
            column,
            color: self.color,
            cells: self.cells.update(cell_index(row as int, column as int), blank(self.color)),
        }
    }
}

/// The byte that is written for `byte`: itself where it is printable ASCII or
/// a line feed, and `UNPRINTABLE` otherwise.
pub open spec fn shown(byte: u8) -> u8 {
    if (0x20 <= byte <= 0x7e) || byte == 0x0a {
        byte
    } else {
        UNPRINTABLE
    }
}

/// Writing keeps a display well formed.
pub proof fn lemma_after_byte_wf(view: WriterView, byte: u8)
    requires
        view.wf(),
    ensures
        view.scrolled().wf(),
        view.after_byte(byte).wf(),
{
}

/// Writing a text keeps a display well formed.
pub proof fn lemma_after_bytes_wf(view: WriterView, bytes: Seq<u8>)
    requires
        view.wf(),
    ensures
        view.after_bytes(bytes).wf(),
    decreases bytes.len(),
{
    if bytes.len() > 0 {
        lemma_after_bytes_wf(view, bytes.drop_last());
        lemma_after_byte_wf(view.after_bytes(bytes.drop_last()), shown(bytes.last()));
    }
}

/// Writes glyphs to the grid at a cursor.
pub struct Writer {
    row_position: usize,
    column_position: usize,
    color_code: ColorCode,
    buffer: [ScreenChar; BUFFER_CELLS],
}

impl View for Writer {
    type V = WriterView;

    closed spec fn view(&self) -> WriterView {
        WriterView {
            row: self.row_position,
            column: self.column_position,
            color: self.color_code,
            cells: self.buffer@,
        }
    }
}

impl Writer {
    /// An empty display in yellow on black, with the cursor at the start of
    /// the bottom row.
    pub fn new() -> (writer: Self)
        ensures
            writer@.wf(),
            writer@.row == BUFFER_HEIGHT - 1,
            writer@.column == 0,
            writer@.color == ColorCode(14),
            writer@.cells == Seq::new(
                (BUFFER_HEIGHT * BUFFER_WIDTH) as nat,
                |i: int| blank(ColorCode(14)),
            ),
    {
        let color_code = ColorCode::new(Color::Yellow, Color::Black);
        let empty = ScreenChar { ascii_character: 0x20, color_code };
        let buffer: [ScreenChar; BUFFER_CELLS] = array_fill_for_copy_types(empty);
        assert(buffer@ =~= Seq::new(
            (BUFFER_HEIGHT * BUFFER_WIDTH) as nat,
            |i: int| blank(ColorCode(14)),
        ));
        Writer { row_position: BUFFER_HEIGHT - 1, column_position: 0, color_code, buffer }
    }

    /// The cursor's row.
    pub fn row_position(&self) -> (row: usize)
        ensures
            row == self@.row,
    {
        self.row_position
    }

    /// The cursor's column.
    pub fn column_position(&self) -> (column: usize)
        ensures
            column == self@.column,
    {
        self.column_position
    }

    /// The cell in the given row and column.
    pub fn cell(&self, row: usize, column: usize) -> (cell: ScreenChar)
        requires
            self@.wf(),
            row < BUFFER_HEIGHT,
            column < BUFFER_WIDTH,
        ensures
            cell == self@.cells[cell_index(row as int, column as int)],
    {
        self.buffer[row * BUFFER_WIDTH + column]
    }

    /// Whether the cursor has a cell before it, so that a glyph can be
    /// erased.
    pub fn can_retreat(&self) -> (possible: bool)
        ensures
            possible == self@.can_retreat(),
    {
        self.column_position > 0 || self.row_position > 0
    }

    /// Writes one byte at the cursor. A line feed starts a new line, and so
    /// does a byte written to a full row.
    pub fn write_byte(&mut self, byte: u8)
        requires
            old(self)@.wf(),
        ensures
            final(self)@.wf(),
            final(self)@ == old(self)@.after_byte(byte),
    {
        if byte == 0x0a {
            self.new_line();
        } else {
            if self.column_position >= BUFFER_WIDTH {
                self.new_line();
            }
            let row = self.row_position;
            let col = self.column_position;
            let color_code = self.color_code;
            self.buffer.set(row * BUFFER_WIDTH + col, ScreenChar { ascii_character: byte, color_code });
            self.column_position += 1;
        }
    }

    /// Writes a text byte by byte. A byte that is neither printable ASCII nor
    /// a line feed is written as `UNPRINTABLE`.
    pub fn write_string(&mut self, s: &str)
        requires
            old(self)@.wf(),
        ensures
            final(self)@.wf(),
            final(self)@ == old(self)@.after_bytes(s.spec_bytes()),
    {
        let bytes = s.as_bytes();
        let mut written: usize = 0;
        while written < bytes.len()
            invariant
                written <= bytes.len(),
                bytes@ == s.spec_bytes(),
                self@.wf(),
                self@ == old(self)@.after_bytes(bytes@.take(written as int)),
            decreases bytes.len() - written,
        {
            let byte = bytes[written];
            proof {
                assert(bytes@.take(written + 1).drop_last() =~= bytes@.take(written as int));
            }
            if (0x20 <= byte && byte <= 0x7e) || byte == 0x0a {
                self.write_byte(byte);
            } else {
                self.write_byte(UNPRINTABLE);
            }
            written += 1;
        }
        assert(bytes@.take(written as int) =~= bytes@);
    }

    /// Moves every row up by one and empties the bottom row.
    fn new_line(&mut self)
        requires
            old(self)@.wf(),
        ensures
            final(self)@.wf(),
            final(self)@ == old(self)@.scrolled(),
    {
        let moved = (BUFFER_HEIGHT - 1) * BUFFER_WIDTH;
        let mut i: usize = 0;
        while i < moved
            invariant
                moved == (BUFFER_HEIGHT - 1) * BUFFER_WIDTH,
                i <= moved,
                self.buffer@.len() == BUFFER_HEIGHT * BUFFER_WIDTH,
                self.row_position == old(self).row_position,
                self.column_position == old(self).column_position,
                self.color_code == old(self).color_code,
                forall|j: int| 0 <= j < i ==> self.buffer@[j] == old(self).buffer@[j + BUFFER_WIDTH],
                forall|j: int| i <= j < self.buffer@.len() ==> self.buffer@[j] == old(self).buffer@[j],
            decreases moved - i,
        {
            let character = self.buffer[i + BUFFER_WIDTH];
            self.buffer.set(i, character);
            i += 1;
        }
        self.clear_row(BUFFER_HEIGHT - 1);
        self.column_position = 0;
        assert(self@.cells =~= old(self)@.scrolled().cells);
    }

    /// Empties one row.
    fn clear_row(&mut self, row: usize)
        requires
            row < BUFFER_HEIGHT,
            old(self).buffer@.len() == BUFFER_HEIGHT * BUFFER_WIDTH,
        ensures
            final(self).buffer@.len() == BUFFER_HEIGHT * BUFFER_WIDTH,
            final(self).row_position == old(self).row_position,
            final(self).column_position == old(self).column_position,
            final(self).color_code == old(self).color_code,
            forall|j: int|
                0 <= j < final(self).buffer@.len() ==> final(self).buffer@[j] == if row
                    * BUFFER_WIDTH <= j < (row + 1) * BUFFER_WIDTH {
                    blank(old(self).color_code)
                } else {
                    old(self).buffer@[j]
                },
    {
        let empty = ScreenChar { ascii_character: 0x20, color_code: self.color_code };
        let mut col: usize = 0;
        while col < BUFFER_WIDTH
            invariant
                col <= BUFFER_WIDTH,
                row < BUFFER_HEIGHT,
                empty == blank(old(self).color_code),
                self.buffer@.len() == BUFFER_HEIGHT * BUFFER_WIDTH,
                self.row_position == old(self).row_position,
                self.column_position == old(self).column_position,
                self.color_code == old(self).color_code,
                forall|j: int|
                    0 <= j < self.buffer@.len() ==> self.buffer@[j] == if row * BUFFER_WIDTH <= j
                        < row * BUFFER_WIDTH + col {
                        empty
                    } else {
                        old(self).buffer@[j]
                    },
            decreases BUFFER_WIDTH - col,
        {
            self.buffer.set(row * BUFFER_WIDTH + col, empty);
            col += 1;
        }
    }

    /// Erases the last glyph: moves the cursor back by one cell and empties
    /// that cell. From the start of a row the cursor goes to the end of the
    /// row above.
    pub fn clear_word(&mut self)
        requires
            old(self)@.wf(),
            old(self)@.can_retreat(),
        ensures
            final(self)@.wf(),
            final(self)@ == old(self)@.after_erase(),
    {
        let empty = ScreenChar { ascii_character: 0x20, color_code: self.color_code };
        if self.column_position == 0 {
            self.column_position = BUFFER_WIDTH - 1;
            self.row_position -= 1;
        } else {
            self.column_position -= 1;
        }
        let row = self.row_position;
        let col = self.column_position;
        self.buffer.set(row * BUFFER_WIDTH + col, empty);
    }
}

} // verus!
