//! The text screen: a grid of characters with a cursor, and the writer that
//! puts bytes on it.

use vstd::prelude::*;
use vstd::string::StringSliceAdditionalSpecFns;

verus! {

/// The number of columns of the screen.
pub const BUFFER_WIDTH: usize = 25;

/// The number of rows of the screen.
pub const BUFFER_HEIGHT: usize = 80;

/// The number of columns between two tab stops.
pub const TAB_WIDTH: usize = 2;

/// A colour of four bits.
#[derive(Clone, Copy, Debug, PartialEq, Eq, Structural)]
pub enum HalfColor {
    Black,
    Blue,
    Green,
    Cyan,
    Red,
    Magenta,
    Brown,
    LightGray,
    DarkGray,
    LightBlue,
    LightGreen,
    LightCyan,
    LightRed,
    Pink,
    Yellow,
    White,
}

impl HalfColor {
    /// The number of the colour.
    pub open spec fn number(self) -> u8 {
        match self {
            HalfColor::Black => 0,
            HalfColor::Blue => 1,
            HalfColor::Green => 2,
            HalfColor::Cyan => 3,
            HalfColor::Red => 4,
            HalfColor::Magenta => 5,
            HalfColor::Brown => 6,
            HalfColor::LightGray => 7,
            HalfColor::DarkGray => 8,
            HalfColor::LightBlue => 9,
            HalfColor::LightGreen => 10,
            HalfColor::LightCyan => 11,
            HalfColor::LightRed => 12,
            HalfColor::Pink => 13,
            HalfColor::Yellow => 14,
            HalfColor::White => 15,
        }
    }

    /// The number of the colour.
    pub fn code(&self) -> (code: u8)
        ensures
            code == self.number(),
    {
        match self {
            HalfColor::Black => 0,
            HalfColor::Blue => 1,
            HalfColor::Green => 2,
            HalfColor::Cyan => 3,
            HalfColor::Red => 4,
            HalfColor::Magenta => 5,
            HalfColor::Brown => 6,
            HalfColor::LightGray => 7,
            HalfColor::DarkGray => 8,
            HalfColor::LightBlue => 9,
            HalfColor::LightGreen => 10,
            HalfColor::LightCyan => 11,
            HalfColor::LightRed => 12,
            HalfColor::Pink => 13,
            HalfColor::Yellow => 14,
            HalfColor::White => 15,
        }
    }
}

/// The colours of a character: the background in the high four bits, the
/// foreground in the low four.
#[derive(Clone, Copy, Debug, PartialEq, Eq, Structural)]
pub struct Color(pub u8);

impl Color {
    /// The colour byte for `foreground` on `background`.
    pub fn new(foreground: HalfColor, background: HalfColor) -> (color: Color)
        ensures
            color.0 == background.number() * 16 + foreground.number(),
    {
        let high = background.code();
        let low = foreground.code();
        assert((high << 4) | low == high * 16 + low) by (bit_vector)
            requires
                high < 16,
                low < 16,
        ;
        Color((high << 4) | low)
    }
}

/// One character of the screen.
#[derive(Clone, Copy, Debug, PartialEq, Eq, Structural)]
pub struct Character {
    /// The code of the character.
    pub char_code: u8,
    /// The colours of the character.
    pub color: Color,
}

/// What the screen shows, and where the next byte goes.
pub struct Screen {
    /// The column of the cursor, from 0 to `BUFFER_WIDTH`.
    pub col: int,
    /// The row of the cursor.
    pub row: int,
    /// The colours of the characters that are written.
    pub color: Color,
    /// The characters, row by row.
    pub cells: Seq<Seq<Character>>,
}

impl Screen {
    /// A space in the colours of the screen.
    pub open spec fn blank(self) -> Character {
        Character { char_code: 0x20, color: self.color }
    }

    /// A row of spaces in the colours of the screen.
    pub open spec fn blank_row(self) -> Seq<Character> {
        Seq::new(BUFFER_WIDTH as nat, |col: int| self.blank())
    }

    /// Whether the screen has its rows and columns and the cursor is on it,
    /// or behind the last column of its row.
    pub open spec fn wf(self) -> bool {
        &&& 0 <= self.col <= BUFFER_WIDTH
        &&& 0 <= self.row < BUFFER_HEIGHT
        &&& self.cells.len() == BUFFER_HEIGHT
        &&& forall|row: int| 0 <= row < BUFFER_HEIGHT ==> (#[trigger] self.cells[row]).len()
            == BUFFER_WIDTH
    }

    /// The screen with `character` at the cursor.
    pub open spec fn with_character(self, character: Character) -> Screen {
        Screen {
            cells: self.cells.update(self.row, self.cells[self.row].update(self.col, character)),
            ..self
        }
    }

    /// The screen cleared: all spaces, the cursor in the first column of the
    /// first row.
    pub open spec fn cleared(self) -> Screen {
        Screen {
            col: 0,
            row: 0,
            cells: Seq::new(BUFFER_HEIGHT as nat, |row: int| self.blank_row()),
            ..self
        }
    }

    /// The screen with every row moved up by one; the first row is lost.
    pub open spec fn scrolled(self) -> Screen {
        Screen {
            cells: Seq::new(
                BUFFER_HEIGHT as nat,
                |row: int|
                    if row < BUFFER_HEIGHT - 1 {
                        self.cells[row + 1]
                    } else {
                        self.cells[row]
                    },
            ),
            ..self
        }
    }

    /// The screen with the row `row` all spaces.
    pub open spec fn with_blank_row(self, row: int) -> Screen {
        Screen { cells: self.cells.update(row, self.blank_row()), ..self }
    }

    /// The screen after a new line: the cursor in the first column of the
    /// next row; in the last row the screen scrolls and the last row is
    /// cleared.
    pub open spec fn new_line(self) -> Screen {
        if self.row < BUFFER_HEIGHT - 1 {
            Screen { col: 0, row: self.row + 1, ..self }
        } else {
            Screen { col: 0, ..self }.scrolled().with_blank_row(BUFFER_HEIGHT - 1)
        }
    }

    /// The screen after the character with the code `byte` was put at the
    /// cursor, on a new line if the cursor was behind the last column.
    pub open spec fn put(self, byte: u8) -> Screen {
        let start = if self.col >= BUFFER_WIDTH {
            self.new_line()
        } else {
            self
        };
        let shown = start.with_character(Character { char_code: byte, color: self.color });
        Screen { col: start.col + 1, ..shown }
    }

    /// The screen after a backspace: the character at the cursor is a space,
    /// and the cursor is one column back, or in the last column of the row
    /// above. In the first column of the first row nothing happens.
    pub open spec fn backspace(self) -> Screen {
        if self.col == 0 && self.row == 0 {
            self
        } else if self.col == 0 {
            Screen { row: self.row - 1, col: BUFFER_WIDTH - 1, ..self.with_character(self.blank()) }
        } else {
            Screen { col: self.col - 1, ..self.with_character(self.blank()) }
        }
    }

    /// The screen after `count` spaces.
    pub open spec fn spaces(self, count: nat) -> Screen
        decreases count,
    {
        if count == 0 {
            self
        } else {
            self.put(0x20).spaces((count - 1) as nat)
        }
    }

    /// Whether `byte` can be written: a backspace cannot while the cursor is
    /// behind the last column.
    pub open spec fn takes(self, byte: u8) -> bool {
        byte == 0x08 ==> self.col < BUFFER_WIDTH
    }

    /// The screen after `byte` was written: a line feed starts a new line, a
    /// carriage return moves the cursor to the first column, a tab writes
    /// spaces up to the next tab stop, a backspace takes a character back,
    /// and any other byte is put at the cursor.
    pub open spec fn write(self, byte: u8) -> Screen {
        if byte == 0x0a {
            self.new_line()
        } else if byte == 0x0d {
            Screen { col: 0, ..self }
        } else if byte == 0x09 {
            self.spaces((TAB_WIDTH - self.col % (TAB_WIDTH as int)) as nat)
        } else if byte == 0x08 {
            self.backspace()
        } else {
            self.put(byte)
        }
    }

    /// Whether the bytes `bytes` can be written one after another.
    pub open spec fn takes_all(self, bytes: Seq<u8>) -> bool
        decreases bytes.len(),
    {
        bytes.len() > 0 ==> self.takes(bytes[0]) && self.write(bytes[0]).takes_all(
            bytes.drop_first(),
        )
    }

    /// The screen after the bytes `bytes` were written one after another.
    pub open spec fn write_all(self, bytes: Seq<u8>) -> Screen
        decreases bytes.len(),
    {
        if bytes.len() == 0 {
            self
        } else {
            self.write(bytes[0]).write_all(bytes.drop_first())
        }
    }
}

/// The characters of the screen.
pub struct Buffer {
    /// The characters, row by row.
    chars: [[Character; 25]; 80],
}

/// Writes bytes to the screen.
pub struct Writer {
    /// The column of the cursor.
    col: usize,
    /// The row of the cursor.
    row: usize,
    /// The colours of the characters that are written.
    color: Color,
    /// The characters of the screen.
    buffer: Buffer,
}

impl View for Writer {
    type V = Screen;

    closed spec fn view(&self) -> Screen {
        Screen {
            col: self.col as int,
            row: self.row as int,
            color: self.color,
            cells: Seq::new(BUFFER_HEIGHT as nat, |row: int| self.buffer.chars@[row]@),
        }
    }
}

impl Writer {
    /// Whether the cursor is on the screen, or behind the last column of
    /// its row.
    pub open spec fn wf(&self) -> bool {
        self@.wf()
    }

    /// A writer in the colours `color` on a screen of spaces.
    pub fn new(color: Color) -> (writer: Writer)
        ensures
            writer.wf(),
            writer@ == writer@.cleared(),
            writer@.color == color,
    {
        let blank = Character { char_code: 0x20, color };
        let writer = Writer { col: 0, row: 0, color, buffer: Buffer { chars: [[blank; 25]; 80] } };
        assert(writer@.cells =~~= writer@.cleared().cells);
        writer
    }

    /// The column and the row of the cursor.
    pub fn cursor(&self) -> (cursor: (usize, usize))
        ensures
            cursor.0 == self@.col,
            cursor.1 == self@.row,
    {
        (self.col, self.row)
    }

    /// The character in the column `col` of the row `row`.
    pub fn character_at(&self, row: usize, col: usize) -> (character: Character)
        requires
            row < BUFFER_HEIGHT,
            col < BUFFER_WIDTH,
        ensures
            character == self@.cells[row as int][col as int],
    {
        self.buffer.chars[row][col]
    }

    /// Moves the cursor to the column `col` of the row `row`.
    pub fn set_cursor(&mut self, col: usize, row: usize)
        requires
            col <= BUFFER_WIDTH,
            row < BUFFER_HEIGHT,
        ensures
            final(self)@ == (Screen { col: col as int, row: row as int, ..old(self)@ }),
    {
        self.col = col;
        self.row = row;
    }

    /// Sets the colours of the characters that are written from now on.
    pub fn set_color(&mut self, color: Color)
        ensures
            final(self)@ == (Screen { color, ..old(self)@ }),
    {
        self.color = color;
    }

    /// Makes the row `row` all spaces.
    pub fn clear_row(&mut self, row: usize)
        requires
            old(self).wf(),
            row < BUFFER_HEIGHT,
        ensures
            final(self)@ == old(self)@.with_blank_row(row as int),
            final(self).wf(),
    {
        let blank = Character { char_code: 0x20, color: self.color };
        self.buffer.chars[row] = [blank; 25];
        assert(self@.cells =~~= old(self)@.with_blank_row(row as int).cells);
    }

    /// Moves every row up by one; the first row is lost.
    pub fn scroll(&mut self)
        requires
            old(self).wf(),
        ensures
            final(self)@ == old(self)@.scrolled(),
            final(self).wf(),
    {
        let mut row: usize = 0;
        while row < BUFFER_HEIGHT - 1
            invariant
                0 <= row <= BUFFER_HEIGHT - 1,
                self.col == old(self).col,
                self.row == old(self).row,
                self.color == old(self).color,
                forall|other: int|
                    0 <= other < row ==> #[trigger] self.buffer.chars@[other]
                        == old(self).buffer.chars@[other + 1],
                forall|other: int|
                    row <= other < BUFFER_HEIGHT ==> #[trigger] self.buffer.chars@[other]
                        == old(self).buffer.chars@[other],
            decreases BUFFER_HEIGHT - row,
        {
            let next = self.buffer.chars[row + 1];
            self.buffer.chars[row] = next;
            row += 1;
        }
        assert(self@.cells =~~= old(self)@.scrolled().cells);
    }

    /// Starts a new line.
    pub fn new_line(&mut self)
        requires
            old(self).wf(),
        ensures
            final(self)@ == old(self)@.new_line(),
            final(self).wf(),
    {
        self.col = 0;
        if self.row < BUFFER_HEIGHT - 1 {
            self.row += 1;
        } else {
            self.scroll();
            self.clear_row(BUFFER_HEIGHT - 1);
        }
    }

    /// Clears the screen, in the colours of the writer.
    pub fn clear_screen(&mut self)
        ensures
            final(self)@ == old(self)@.cleared(),
            final(self).wf(),
    {
        self.col = 0;
        self.row = 0;
        let blank = Character { char_code: 0x20, color: self.color };
        let mut row: usize = 0;
        while row < BUFFER_HEIGHT
            invariant
                0 <= row <= BUFFER_HEIGHT,
                self.col == 0,
                self.row == 0,
                self.color == old(self).color,
                blank == old(self)@.blank(),
                forall|other: int|
                    0 <= other < row ==> (#[trigger] self.buffer.chars@[other])@
                        =~= old(self)@.blank_row(),
            decreases BUFFER_HEIGHT - row,
        {
            let mut col: usize = 0;
            while col < BUFFER_WIDTH
                invariant
                    0 <= row < BUFFER_HEIGHT,
                    0 <= col <= BUFFER_WIDTH,
                    self.col == 0,
                    self.row == 0,
                    self.color == old(self).color,
                    blank == old(self)@.blank(),
                    forall|other: int|
                        0 <= other < row ==> (#[trigger] self.buffer.chars@[other])@
                            =~= old(self)@.blank_row(),
                    forall|other: int|
                        0 <= other < col ==> #[trigger] self.buffer.chars@[row as int]@[other]
                            == blank,
                decreases BUFFER_WIDTH - col,
            {
                self.buffer.chars[row][col] = blank;
                col += 1;
            }
            row += 1;
        }
        assert(self@.cells =~~= old(self)@.cleared().cells);
    }

    /// Puts the character with the code `byte` at the cursor, on a new line
    /// if the cursor is behind the last column.
    fn put(&mut self, byte: u8)
        requires
            old(self).wf(),
        ensures
            final(self)@ == old(self)@.put(byte),
            final(self).wf(),
    {
        if self.col >= BUFFER_WIDTH {
            self.new_line();
        }
        let ghost start = self@;
        self.buffer.chars[self.row][self.col] = Character { char_code: byte, color: self.color };
        assert(self@.cells =~~= start.with_character(
            Character { char_code: byte, color: self.color },
        ).cells);
        self.col += 1;
    }

    /// Writes `byte`: a line feed starts a new line, a carriage return moves
    /// the cursor to the first column, a tab writes spaces up to the next tab
    /// stop, a backspace takes a character back, and any other byte is put at
    /// the cursor.
    pub fn write_byte(&mut self, byte: u8)
        requires
            old(self).wf(),
            old(self)@.takes(byte),
        ensures
            final(self)@ == old(self)@.write(byte),
            final(self).wf(),
    {
        if byte == 0x0a {
            self.new_line();
        } else if byte == 0x0d {
            self.col = 0;
        } else if byte == 0x09 {
            let count = TAB_WIDTH - (self.col % TAB_WIDTH);
            let mut written: usize = 0;
            while written < count
                invariant
                    0 <= written <= count,
                    self.wf(),
                    self@.spaces((count - written) as nat) == old(self)@.spaces(count as nat),
                decreases count - written,
            {
                self.put(0x20);
                written += 1;
            }
        } else if byte == 0x08 {
            let blank = Character { char_code: 0x20, color: self.color };
            if self.col == 0 && self.row == 0 {
                return ;
            } else if self.col == 0 {
                self.buffer.chars[self.row][self.col] = blank;
                self.row -= 1;
                self.col = BUFFER_WIDTH - 1;
            } else {
                self.buffer.chars[self.row][self.col] = blank;
                self.col -= 1;
            }
            assert(self@.cells =~~= old(self)@.backspace().cells);
        } else {
            self.put(byte);
        }
    }

    /// Writes the bytes of `string` one after another.
    pub fn write_str(&mut self, string: &str)
        requires
            old(self).wf(),
            old(self)@.takes_all(string.spec_bytes()),
        ensures
            final(self)@ == old(self)@.write_all(string.spec_bytes()),
            final(self).wf(),
    {
        let bytes = string.as_bytes();
        let mut index: usize = 0;
        assert(bytes@.skip(0) =~= bytes@);
        while index < bytes.len()
            invariant
                0 <= index <= bytes@.len(),
                bytes@ == string.spec_bytes(),
                self.wf(),
                self@.takes_all(bytes@.skip(index as int)),
                self@.write_all(bytes@.skip(index as int)) == old(self)@.write_all(bytes@),
            decreases bytes@.len() - index,
        {
            let ghost rest = bytes@.skip(index as int);
            assert(rest.drop_first() =~= bytes@.skip(index + 1));
            self.write_byte(bytes[index]);
            index += 1;
        }
    }
}

} // verus!
