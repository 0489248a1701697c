//! The text screen: 25 rows of 80 coloured characters, written at the bottom
//! row and scrolled upwards.

use vstd::prelude::*;
use vstd::string::StringSliceAdditionalSpecFns;

verus! {

/// Rows of the text screen.
pub const BUFFER_HEIGHT: usize = 25;

/// Columns of the text screen.
pub const BUFFER_WIDTH: usize = 80;

/// Cells of the text screen.
pub const BUFFER_CELLS: usize = 2000;

/// The byte shown in place of one that cannot be printed.
pub const UNPRINTABLE: u8 = 0xfe;

/// The sixteen colours of the text screen.
#[derive(Clone, Copy, Debug, PartialEq, Eq, Structural)]
pub enum Colour {
    Black,
    Blue,
    Green,
    Cyan,
    Red,
    Magenta,
    Brown,
    LightGray,
    DarkGray,
    LightBlue,
    LightGreen,
    LightCyan,
    LightRed,
    Pink,
    Yellow,
    White,
}

impl Colour {
    /// The number of the colour, 0 to 15.
    pub open spec fn code_spec(self) -> u8 {
        match self {
            Colour::Black => 0,
            Colour::Blue => 1,
            Colour::Green => 2,
            Colour::Cyan => 3,
            Colour::Red => 4,
            Colour::Magenta => 5,
            Colour::Brown => 6,
            Colour::LightGray => 7,
            Colour::DarkGray => 8,
            Colour::LightBlue => 9,
            Colour::LightGreen => 10,
            Colour::LightCyan => 11,
            Colour::LightRed => 12,
            Colour::Pink => 13,
            Colour::Yellow => 14,
            Colour::White => 15,
        }
    }

    /// The number of the colour, 0 to 15.
    #[verifier::when_used_as_spec(code_spec)]
    pub fn code(self) -> (code: u8)
        ensures
            code == self.code_spec(),
            code < 16,
    {
        match self {
            Colour::Black => 0,
            Colour::Blue => 1,
            Colour::Green => 2,
            Colour::Cyan => 3,
            Colour::Red => 4,
            Colour::Magenta => 5,
            Colour::Brown => 6,
            Colour::LightGray => 7,
            Colour::DarkGray => 8,
            Colour::LightBlue => 9,
            Colour::LightGreen => 10,
            Colour::LightCyan => 11,
            Colour::LightRed => 12,
            Colour::Pink => 13,
            Colour::Yellow => 14,
            Colour::White => 15,
        }
    }
}

/// The attribute byte of a cell: foreground colour in the lower four bits,
/// background colour in the upper four.
#[derive(Clone, Copy, Debug, PartialEq, Eq, Structural)]
pub struct ColourCode(pub u8);

impl ColourCode {
    /// Combines a foreground and a background colour into an attribute byte.
    pub fn new(foreground: Colour, background: Colour) -> (code: ColourCode)
        ensures
            code.0 == foreground.code() + background.code() * 16,
    {
        let fg: u8 = foreground.code();
        let bg: u8 = background.code();
        assert((bg << 4) | fg == fg + bg * 16) by (bit_vector)
            requires
                fg < 16,
                bg < 16,
        ;
        ColourCode((bg << 4) | fg)
    }
}

/// One cell of the screen: a character and its colours.
#[derive(Clone, Copy, Debug, PartialEq, Eq, Structural)]
pub struct ScreenChar {
    /// The character, as a code page 437 byte.
    pub ascii_char: u8,
    /// The colours it is shown in.
    pub colour_code: ColourCode,
}

/// Whether a byte is a printable ASCII character.
pub open spec fn is_printable(byte: u8) -> bool {
    0x20 <= byte <= 0x7e
}

/// The byte that `write_string` writes for a byte of its input.
pub open spec fn shown_byte(byte: u8) -> u8 {
    if is_printable(byte) || byte == 0x0a {
        byte
    } else {
        UNPRINTABLE
    }
}

/// The position of the cell at `row` and `col` among the cells of the screen.
pub open spec fn cell_index(row: int, col: int) -> int {
    row * BUFFER_WIDTH + col
}

/// The writer and its screen as a mathematical value.
pub struct Screen {
    /// The cells, row by row from the top.
    pub cells: Seq<ScreenChar>,
    /// The column of the bottom row that the next character goes to.
    pub column_pos: int,
    /// The colours that characters are written in.
    pub colour_code: ColourCode,
}

impl Screen {
    /// The screen has all its cells, and the column is not negative.
    pub open spec fn wf(self) -> bool {
        &&& self.cells.len() == BUFFER_CELLS
        &&& self.column_pos >= 0
    }

    /// The cell at `row` and `col`.
    pub open spec fn at(self, row: int, col: int) -> ScreenChar {
        self.cells[cell_index(row, col)]
    }

    /// What a blank cell holds: a space in the writer's colours.
    pub open spec fn blank(self) -> ScreenChar {
        ScreenChar { ascii_char: 0x20, colour_code: self.colour_code }
    }

    /// The screen with `byte` in the writer's colours at `row` and `col`.
    pub open spec fn put(self, byte: u8, row: int, col: int) -> Screen {
        Screen {
            cells: self.cells.update(
                cell_index(row, col),
                ScreenChar { ascii_char: byte, colour_code: self.colour_code },
            ),
            ..self
        }
    }

    /// The screen with the cells of `row` blank.
    pub open spec fn clear_row(self, row: int) -> Screen {
        Screen {
            cells: Seq::new(
                self.cells.len(),
                |i: int|
                    if cell_index(row, 0) <= i < cell_index(row + 1, 0) {
                        self.blank()
                    } else {
                        self.cells[i]
                    },
            ),
            ..self
        }
    }

    /// The screen after a line feed: every row moves up by one, the top row
    /// is lost, the bottom row is blank and writing goes on at its start.
    pub open spec fn new_line(self) -> Screen {
        Screen {
            cells: Seq::new(
                self.cells.len(),
                |i: int|
                    if i < cell_index(BUFFER_HEIGHT - 1, 0) {
                        self.cells[i + BUFFER_WIDTH]
                    } else {
                        self.blank()
                    },
            ),
            column_pos: 0,
            ..self
        }
    }

    /// The screen after writing `byte`: a line feed starts a new line; any
    /// other byte goes to the bottom row at the current column, after a line
    /// feed of its own when that row is full.
    pub open spec fn write_byte(self, byte: u8) -> Screen {
        if byte == 0x0a {
            self.new_line()
        } else {
            let screen = if self.column_pos >= BUFFER_WIDTH { self.new_line() } else { self };
            Screen {
                column_pos: screen.column_pos + 1,
                ..screen.put(byte, BUFFER_HEIGHT - 1, screen.column_pos)
            }
        }
    }

    /// The screen after writing `byte` at `row` and `col`: nothing changes
    /// unless the byte is printable and the cell exists.
    pub open spec fn write_byte_at(self, byte: u8, row: int, col: int) -> Screen {
        if is_printable(byte) && 0 <= row < BUFFER_HEIGHT && 0 <= col < BUFFER_WIDTH {
            self.put(byte, row, col)
        } else {
            self
        }
    }

    /// The screen after writing the bytes one after the other, each byte
    /// that cannot be printed replaced.
    pub open spec fn write_string(self, bytes: Seq<u8>) -> Screen
        decreases bytes.len(),
    {
        if bytes.len() == 0 {
            self
        } else {
            self.write_string(bytes.drop_last()).write_byte(shown_byte(bytes.last()))
        }
    }
}

/// Writing a byte keeps the screen whole.
pub proof fn lemma_write_byte_keeps_wf(screen: Screen, byte: u8)
    requires
        screen.wf(),
    ensures
        screen.write_byte(byte).wf(),
{
}

/// Writing a string keeps the screen whole.
pub proof fn lemma_write_string_keeps_wf(screen: Screen, bytes: Seq<u8>)
    requires
        screen.wf(),
    ensures
        screen.write_string(bytes).wf(),
    decreases bytes.len(),
{
    if bytes.len() > 0 {
        lemma_write_string_keeps_wf(screen, bytes.drop_last());
        lemma_write_byte_keeps_wf(
            screen.write_string(bytes.drop_last()),
            shown_byte(bytes.last()),
        );
    }
}

/// After a string that fits one row and a line feed, the string stands at
/// the start of the row above the bottom row.
pub proof fn lemma_line_above_bottom(screen: Screen, bytes: Seq<u8>, col: int)
    requires
        screen.wf(),
        screen.column_pos == 0,
        bytes.len() <= BUFFER_WIDTH,
        forall|i: int| 0 <= i < bytes.len() ==> is_printable(#[trigger] bytes[i]),
        0 <= col < bytes.len(),
    ensures
        screen.write_string(bytes).write_byte(0x0a).at(BUFFER_HEIGHT - 2, col) == (ScreenChar {
            ascii_char: bytes[col],
            colour_code: screen.colour_code,
        }),
{
    lemma_line_written(screen, bytes, col);
}

/// After a printable string that fits the rest of the bottom row, each of
/// its bytes stands in the bottom row, and the column has moved on by its
/// length.
pub proof fn lemma_line_written(screen: Screen, bytes: Seq<u8>, col: int)
    requires
        screen.wf(),
        0 <= screen.column_pos,
        screen.column_pos + bytes.len() <= BUFFER_WIDTH,
        forall|i: int| 0 <= i < bytes.len() ==> is_printable(#[trigger] bytes[i]),
        0 <= col < bytes.len(),
    ensures
        screen.write_string(bytes).wf(),
        screen.write_string(bytes).colour_code == screen.colour_code,
        screen.write_string(bytes).column_pos == screen.column_pos + bytes.len(),
        screen.write_string(bytes).at(BUFFER_HEIGHT - 1, screen.column_pos + col) == (ScreenChar {
            ascii_char: bytes[col],
            colour_code: screen.colour_code,
        }),
    decreases bytes.len(),
{
    let init = bytes.drop_last();
    lemma_line_shape(screen, init);
    if col < init.len() {
        lemma_line_written(screen, init, col);
    }
}

/// A printable string that fits the rest of the bottom row moves the column
/// on by its length and keeps the colours.
pub proof fn lemma_line_shape(screen: Screen, bytes: Seq<u8>)
    requires
        screen.wf(),
        0 <= screen.column_pos,
        screen.column_pos + bytes.len() <= BUFFER_WIDTH,
        forall|i: int| 0 <= i < bytes.len() ==> is_printable(#[trigger] bytes[i]),
    ensures
        screen.write_string(bytes).wf(),
        screen.write_string(bytes).colour_code == screen.colour_code,
        screen.write_string(bytes).column_pos == screen.column_pos + bytes.len(),
    decreases bytes.len(),
{
    if bytes.len() > 0 {
        let init = bytes.drop_last();
        assert forall|i: int| 0 <= i < init.len() implies is_printable(#[trigger] init[i]) by {
            assert(init[i] == bytes[i]);
        }
        lemma_line_shape(screen, init);
    }
}

/// The cells of the text screen.
pub struct Buffer {
    chars: [ScreenChar; BUFFER_CELLS],
}

impl View for Buffer {
    type V = Seq<ScreenChar>;

    closed spec fn view(&self) -> Seq<ScreenChar> {
        self.chars@
    }
}

impl Buffer {
    /// A buffer always has all its cells.
    pub proof fn lemma_len(&self)
        ensures
            self@.len() == BUFFER_CELLS,
    {
        broadcast use vstd::array::group_array_axioms;

    }

    /// Creates a screen whose cells all hold `cell`.
    pub fn filled(cell: ScreenChar) -> (buffer: Self)
        ensures
            buffer@ == Seq::new(BUFFER_CELLS as nat, |i: int| cell),
    {
        broadcast use vstd::array::group_array_axioms;

        let chars: [ScreenChar; BUFFER_CELLS] = [cell;BUFFER_CELLS];
        assert(chars@ =~= Seq::new(BUFFER_CELLS as nat, |i: int| cell));
        Buffer { chars }
    }

    /// The cell at `row` and `col`.
    pub fn read(&self, row: usize, col: usize) -> (cell: ScreenChar)
        requires
            row < BUFFER_HEIGHT,
            col < BUFFER_WIDTH,
        ensures
            cell == self@[cell_index(row as int, col as int)],
    {
        broadcast use vstd::array::group_array_axioms;

        assert(row * 80 + col < 2000) by (nonlinear_arith)
            requires
                row < 25,
                col < 80,
        ;
        self.chars[row * BUFFER_WIDTH + col]
    }

    /// Puts `cell` at `row` and `col`.
    pub fn write(&mut self, row: usize, col: usize, cell: ScreenChar)
        requires
            row < BUFFER_HEIGHT,
            col < BUFFER_WIDTH,
        ensures
            final(self)@ == old(self)@.update(cell_index(row as int, col as int), cell),
            final(self)@.len() == BUFFER_CELLS,
    {
        broadcast use vstd::array::group_array_axioms;

        assert(row * 80 + col < 2000) by (nonlinear_arith)
            requires
                row < 25,
                col < 80,
        ;
        self.chars[row * BUFFER_WIDTH + col] = cell;
    }
}

/// Writes characters to the screen.
pub struct Writer {
    /// The column of the bottom row that the next character goes to.
    pub column_pos: usize,
    /// The colours that characters are written in.
    pub colour_code: ColourCode,
    /// The screen.
    pub buffer: Buffer,
}

impl View for Writer {
    type V = Screen;

    open spec fn view(&self) -> Screen {
        Screen {
            cells: self.buffer@,
            column_pos: self.column_pos as int,
            colour_code: self.colour_code,
        }
    }
}

impl Writer {
    /// Writes one byte at the current position of the bottom row; a line
    /// feed starts a new line.
    pub fn write_byte(&mut self, byte: u8)
        ensures
            final(self)@ == old(self)@.write_byte(byte),
            final(self)@.wf(),
    {
        broadcast use vstd::array::group_array_axioms;

        if byte == 0x0a {
            self.new_line();
        } else {
            if self.column_pos >= BUFFER_WIDTH {
                self.new_line();
            }
            let row: usize = BUFFER_HEIGHT - 1;
            let col: usize = self.column_pos;
            let colour_code = self.colour_code;
            self.buffer.write(row, col, ScreenChar { ascii_char: byte, colour_code });
            self.column_pos = self.column_pos + 1;
        }
    }

    /// Writes one printable byte at the given cell; does nothing for another
    /// byte or a cell off the screen.
    pub fn write_byte_at(&mut self, byte: u8, row: usize, col: usize)
        ensures
            final(self)@ == old(self)@.write_byte_at(byte, row as int, col as int),
            final(self)@.wf(),
    {
        broadcast use vstd::array::group_array_axioms;

        if 0x20 <= byte && byte <= 0x7e {
            if row < BUFFER_HEIGHT && col < BUFFER_WIDTH {
                let colour_code = self.colour_code;
                self.buffer.write(row, col, ScreenChar { ascii_char: byte, colour_code });
            }
        }
    }

    /// Writes the bytes of a string one after the other; a byte that is
    /// neither printable nor a line feed is shown as `UNPRINTABLE`.
    pub fn write_string(&mut self, s: &str)
        ensures
            final(self)@ == old(self)@.write_string(s.spec_bytes()),
            final(self)@.wf(),
    {
        broadcast use vstd::array::group_array_axioms;

        let bytes = s.as_bytes();
        let n: usize = bytes.len();
        let mut i: usize = 0;
        while i < n
            invariant
                0 <= i <= n,
                n == bytes@.len(),
                bytes@ == s.spec_bytes(),
                self@.wf(),
                self@ == old(self)@.write_string(bytes@.take(i as int)),
            decreases n - i,
        {
            let byte: u8 = bytes[i];
            proof {
                assert(bytes@.take(i as int + 1).drop_last() =~= bytes@.take(i as int));
            }
            if (0x20 <= byte && byte <= 0x7e) || byte == 0x0a {
                self.write_byte(byte);
            } else {
                self.write_byte(UNPRINTABLE);
            }
            i = i + 1;
        }
        proof {
            assert(bytes@.take(n as int) =~= bytes@);
        }
    }

    /// Moves every row up by one, blanks the bottom row and goes to its
    /// first column.
    pub fn new_line(&mut self)
        ensures
            final(self)@ == old(self)@.new_line(),
            final(self)@.wf(),
    {
        broadcast use vstd::array::group_array_axioms;

        let mut row: usize = 1;
        while row < BUFFER_HEIGHT
            invariant
                1 <= row <= BUFFER_HEIGHT,
                self@.wf(),
                self.column_pos == old(self).column_pos,
                self.colour_code == old(self).colour_code,
                forall|i: int|
                    0 <= i < cell_index(row - 1, 0) ==> self@.cells[i] == old(self)@.cells[i
                        + BUFFER_WIDTH],
                forall|i: int|
                    cell_index(row - 1, 0) <= i < BUFFER_CELLS ==> self@.cells[i] == old(
                        self,
                    )@.cells[i],
            decreases BUFFER_HEIGHT - row,
        {
            let mut col: usize = 0;
            while col < BUFFER_WIDTH
                invariant
                    1 <= row < BUFFER_HEIGHT,
                    0 <= col <= BUFFER_WIDTH,
                    self@.wf(),
                    self.column_pos == old(self).column_pos,
                    self.colour_code == old(self).colour_code,
                    forall|i: int|
                        0 <= i < cell_index(row - 1, col as int) ==> self@.cells[i] == old(
                            self,
                        )@.cells[i + BUFFER_WIDTH],
                    forall|i: int|
                        cell_index(row - 1, col as int) <= i < BUFFER_CELLS ==> self@.cells[i]
                            == old(self)@.cells[i],
                decreases BUFFER_WIDTH - col,
            {
                let character = self.buffer.read(row, col);
                self.buffer.write(row - 1, col, character);
                col = col + 1;
            }
            row = row + 1;
        }
        self.clear_row(BUFFER_HEIGHT - 1);
        self.column_pos = 0;
        assert(self@.cells =~= old(self)@.new_line().cells);
    }

    /// Blanks the cells of one row.
    pub fn clear_row(&mut self, row: usize)
        requires
            row < BUFFER_HEIGHT,
        ensures
            final(self)@ == old(self)@.clear_row(row as int),
            final(self)@.wf(),
    {
        broadcast use vstd::array::group_array_axioms;

        let blank = ScreenChar { ascii_char: 0x20, colour_code: self.colour_code };
        let mut col: usize = 0;
        while col < BUFFER_WIDTH
            invariant
                row < BUFFER_HEIGHT,
                0 <= col <= BUFFER_WIDTH,
                self@.wf(),
                self.column_pos == old(self).column_pos,
                self.colour_code == old(self).colour_code,
                blank == old(self)@.blank(),
                forall|i: int|
                    0 <= i < BUFFER_CELLS ==> self@.cells[i] == if cell_index(row as int, 0) <= i
                        < cell_index(row as int, col as int) {
                        blank
                    } else {
                        old(self)@.cells[i]
                    },
            decreases BUFFER_WIDTH - col,
        {
            self.buffer.write(row, col, blank);
            col = col + 1;
        }
        assert(self@.cells =~= old(self)@.clear_row(row as int).cells);
    }
}

} // verus!
