//! Text-mode screen writer: a cursor over a fixed 80x25 buffer of
//! character cells, with line wrap and scrolling.

use vstd::prelude::*;

verus! {

use vstd::string::StringSliceAdditionalSpecFns;

/// Characters per row.
pub const SCREEN_WIDTH: usize = 80;

/// Rows on the screen.
pub const SCREEN_HEIGHT: usize = 25;

/// The sixteen text-mode colors.
#[derive(Debug, Copy, Clone, PartialEq, Eq, Structural)]
pub enum Color {
    Black,
    Blue,
    Green,
    Cyan,
    Red,
    Magenta,
    Brown,
    LightGray,
    DarkGray,
    LightBlue,
    LightGreen,
    LightCyan,
    LightRed,
    LightMagenta,
    Yellow,
    White,
}

impl Color {
    /// The 4-bit hardware code of this color.
    pub open spec fn spec_code(self) -> u8 {
        match self {
            Color::Black => 0x0,
            Color::Blue => 0x1,
            Color::Green => 0x2,
            Color::Cyan => 0x3,
            Color::Red => 0x4,
            Color::Magenta => 0x5,
            Color::Brown => 0x6,
            Color::LightGray => 0x7,
            Color::DarkGray => 0x8,
            Color::LightBlue => 0x9,
            Color::LightGreen => 0xA,
            Color::LightCyan => 0xB,
            Color::LightRed => 0xC,
            Color::LightMagenta => 0xD,
            Color::Yellow => 0xE,
            Color::White => 0xF,
        }
    }

    pub fn code(self) -> (r: u8)
        ensures
            r == self.spec_code(),
            r <= 0xF,
    {
        match self {
            Color::Black => 0x0,
            Color::Blue => 0x1,
            Color::Green => 0x2,
            Color::Cyan => 0x3,
            Color::Red => 0x4,
            Color::Magenta => 0x5,
            Color::Brown => 0x6,
            Color::LightGray => 0x7,
            Color::DarkGray => 0x8,
            Color::LightBlue => 0x9,
            Color::LightGreen => 0xA,
            Color::LightCyan => 0xB,
            Color::LightRed => 0xC,
            Color::LightMagenta => 0xD,
            Color::Yellow => 0xE,
            Color::White => 0xF,
        }
    }
}

/// A foreground and background color pair: background in the high
/// nibble, foreground in the low one.
#[derive(Debug, Copy, Clone, PartialEq, Eq, Structural)]
pub struct ColorCode(u8);

impl ColorCode {
    pub closed spec fn view(self) -> u8 {
        self.0
    }

    pub fn new(foreground: Color, background: Color) -> (r: ColorCode)
        ensures
            r@ == background.spec_code() * 16 + foreground.spec_code(),
    {
        let b = background.code();
        let f = foreground.code();
        proof {
            lemma_color_pack(b, f);
        }
        ColorCode((b << 4u8) | f)
    }
}

/// With both nibbles in range, shift-and-or packs them losslessly.
proof fn lemma_color_pack(b: u8, f: u8)
    by (bit_vector)
    requires
        b <= 0xF,
        f <= 0xF,
    ensures
        ((b << 4u8) | f) == b * 16 + f,
{
}

/// One character cell: a code-page byte and its colors.
#[derive(Debug, Copy, Clone, PartialEq, Eq, Structural)]
pub struct VgaChar {
    pub character: u8,
    pub color_code: ColorCode,
}

impl VgaChar {
    pub fn new(character: u8, color_code: ColorCode) -> (r: VgaChar)
        ensures
            r == (VgaChar { character, color_code }),
    {
        VgaChar { character, color_code }
    }
}

/// The blank cell used for cleared regions.
pub open spec fn spec_blank(color: ColorCode) -> VgaChar {
    VgaChar { character: 32u8, color_code: color }
}

/// The buffer with every row moved up one and a blank last row.
pub open spec fn spec_scroll(buffer: Seq<VgaChar>, color: ColorCode) -> Seq<VgaChar> {
    Seq::new(
        buffer.len(),
        |i: int|
            if i < (SCREEN_HEIGHT - 1) * SCREEN_WIDTH {
                buffer[i + SCREEN_WIDTH]
            } else {
                spec_blank(color)
            },
    )
}

/// What one byte does to the screen state `(buffer, row, col)`: a
/// newline moves to the next line (scrolling off the bottom); any other
/// byte is written at the cursor, which advances and wraps.
pub open spec fn spec_write_byte(
    buffer: Seq<VgaChar>,
    row: int,
    col: int,
    color: ColorCode,
    byte: u8,
) -> (Seq<VgaChar>, int, int) {
    if byte == 10 {
        if row + 1 == SCREEN_HEIGHT {
            (spec_scroll(buffer, color), SCREEN_HEIGHT - 1 as int, 0int)
        } else {
            (buffer, row + 1, 0int)
        }
    } else {
        let written = buffer.update(
            row * SCREEN_WIDTH + col,
            VgaChar { character: byte, color_code: color },
        );
        if col + 1 == SCREEN_WIDTH {
            if row + 1 == SCREEN_HEIGHT {
                (spec_scroll(written, color), SCREEN_HEIGHT - 1 as int, 0int)
            } else {
                (written, row + 1, 0int)
            }
        } else {
            (written, row, col + 1)
        }
    }
}

/// The byte a string byte is displayed as: printable bytes and newlines
/// pass through, anything else shows the replacement character.
pub open spec fn spec_displayed_byte(byte: u8) -> u8 {
    if (32 <= byte <= 126) || byte == 10 {
        byte
    } else {
        254
    }
}

/// The screen state after writing `bytes[i..]`, each byte filtered
/// through `spec_displayed_byte`.
pub open spec fn spec_write_string(
    buffer: Seq<VgaChar>,
    row: int,
    col: int,
    color: ColorCode,
    bytes: Seq<u8>,
    i: int,
) -> (Seq<VgaChar>, int, int)
    decreases bytes.len() - i,
{
    if i < 0 || i >= bytes.len() {
        (buffer, row, col)
    } else {
        let stepped = spec_write_byte(buffer, row, col, color, spec_displayed_byte(bytes[i]));
        spec_write_string(stepped.0, stepped.1, stepped.2, color, bytes, i + 1)
    }
}

/// A cursor writing into an owned screen buffer of
/// `SCREEN_WIDTH * SCREEN_HEIGHT` cells.
pub struct VgaWriter {
    row: usize,
    col: usize,
    color: ColorCode,
    buffer: Vec<VgaChar>,
}

impl VgaWriter {
    /// The screen contents.
    pub closed spec fn view(&self) -> Seq<VgaChar> {
        self.buffer@
    }

    pub closed spec fn spec_row(&self) -> int {
        self.row as int
    }

    pub closed spec fn spec_col(&self) -> int {
        self.col as int
    }

    pub closed spec fn spec_color(&self) -> ColorCode {
        self.color
    }

    /// The cursor is on the screen and the buffer covers it exactly.
    pub open spec fn wf(&self) -> bool {
        &&& self@.len() == SCREEN_WIDTH * SCREEN_HEIGHT
        &&& 0 <= self.spec_row() < SCREEN_HEIGHT
        &&& 0 <= self.spec_col() < SCREEN_WIDTH
    }

    /// A writer over `buffer`, which must cover the screen exactly;
    /// the cursor starts at the top left, writing white on black.
    pub fn new(buffer: Vec<VgaChar>) -> (r: VgaWriter)
        requires
            buffer@.len() == SCREEN_WIDTH * SCREEN_HEIGHT,
        ensures
            r.wf(),
            r@ == buffer@,
            r.spec_row() == 0,
            r.spec_col() == 0,
            r.spec_color()@ == Color::Black.spec_code() * 16 + Color::White.spec_code(),
    {
        let row: usize = 0;
        let col: usize = 0;
        let color = ColorCode::new(Color::White, Color::Black);

        VgaWriter { row, col, color, buffer }
    }

    /// The cell at `index`.
    pub fn char_at(&self, index: usize) -> (r: VgaChar)
        requires
            index < self@.len(),
        ensures
            r == self@[index as int],
    {
        self.buffer[index]
    }

    /// Blanks the whole screen with the current color; the cursor stays
    /// where it was.
    pub fn clear(&mut self)
        requires
            old(self).wf(),
        ensures
            final (self).wf(),
            final (self)@ == Seq::new(old(self)@.len(), |i: int| spec_blank(old(self).spec_color())),
            final (self).spec_row() == old(self).spec_row(),
            final (self).spec_col() == old(self).spec_col(),
            final (self).spec_color() == old(self).spec_color(),
    {
        let blank_char = VgaChar::new(32u8, self.color);

        let mut i: usize = 0;
        while i < SCREEN_WIDTH * SCREEN_HEIGHT
            invariant
                old(self).wf(),
                self@.len() == SCREEN_WIDTH * SCREEN_HEIGHT,
                i <= SCREEN_WIDTH * SCREEN_HEIGHT,
                self.row == old(self).row,
                self.col == old(self).col,
                self.color == old(self).color,
                blank_char == spec_blank(old(self).spec_color()),
                forall|j: int| 0 <= j < i ==> self@[j] == spec_blank(old(self).spec_color()),
                forall|j: int| i <= j < self@.len() ==> self@[j] == old(self)@[j],
            decreases SCREEN_WIDTH * SCREEN_HEIGHT - i,
        {
            self.buffer.set(i, blank_char);
            i = i + 1;
        }
        proof {
            assert(self@ =~= Seq::new(old(self)@.len(), |i: int| spec_blank(old(self).spec_color())));
        }
    }

    /// Writes one byte at the cursor: a newline opens a new line and any
    /// other byte lands in the current cell; the cursor wraps at the
    /// right edge, and the screen scrolls when a line is opened below
    /// the last row.
    pub fn write_byte(&mut self, byte: u8)
        requires
            old(self).wf(),
        ensures
            final (self).wf(),
            final (self).spec_color() == old(self).spec_color(),
            ({
                let stepped = spec_write_byte(
                    old(self)@,
                    old(self).spec_row(),
                    old(self).spec_col(),
                    old(self).spec_color(),
                    byte,
                );
                final (self)@ == stepped.0 && final (self).spec_row() == stepped.1
                    && final (self).spec_col() == stepped.2
            }),
    {
        if byte == 10u8 {
            self.row = self.row + 1;
            if self.row == SCREEN_HEIGHT {
                self.scroll();
            }
            self.col = 0;
            return ;
        }
        let vga_char = VgaChar::new(byte, self.color);
        self.buffer.set(self.row * SCREEN_WIDTH + self.col, vga_char);

        self.col = self.col + 1;

        if self.col == SCREEN_WIDTH {
            self.row = self.row + 1;
            if self.row == SCREEN_HEIGHT {
                self.scroll();
            }
            self.col = 0;
        }
    }

    /// Moves every row up by one and blanks the last row; the cursor
    /// lands at the start of the last row.
    fn scroll(&mut self)
        requires
            old(self)@.len() == SCREEN_WIDTH * SCREEN_HEIGHT,
        ensures
            final (self)@ == spec_scroll(old(self)@, old(self).spec_color()),
            final (self).spec_row() == SCREEN_HEIGHT - 1,
            final (self).spec_col() == 0,
            final (self).spec_color() == old(self).spec_color(),
    {
        let mut i: usize = SCREEN_WIDTH;
        while i < SCREEN_WIDTH * SCREEN_HEIGHT
            invariant
                self@.len() == SCREEN_WIDTH * SCREEN_HEIGHT,
                SCREEN_WIDTH <= i <= SCREEN_WIDTH * SCREEN_HEIGHT,
                self.color == old(self).color,
                forall|j: int| 0 <= j < i - SCREEN_WIDTH ==> self@[j] == old(self)@[j + SCREEN_WIDTH],
                forall|j: int| i - SCREEN_WIDTH <= j < self@.len() ==> self@[j] == old(self)@[j],
            decreases SCREEN_WIDTH * SCREEN_HEIGHT - i,
        {
            let moved = self.buffer[i];
            self.buffer.set(i - SCREEN_WIDTH, moved);
            i = i + 1;
        }

        let blank_char = VgaChar::new(32u8, self.color);
        let mut col: usize = 0;
        while col < SCREEN_WIDTH
            invariant
                self@.len() == SCREEN_WIDTH * SCREEN_HEIGHT,
                col <= SCREEN_WIDTH,
                self.color == old(self).color,
                blank_char == spec_blank(old(self).spec_color()),
                forall|j: int|
                    0 <= j < (SCREEN_HEIGHT - 1) * SCREEN_WIDTH ==> self@[j] == old(self)@[j
                        + SCREEN_WIDTH],
                forall|j: int|
                    (SCREEN_HEIGHT - 1) * SCREEN_WIDTH <= j < (SCREEN_HEIGHT - 1) * SCREEN_WIDTH
                        + col ==> self@[j] == spec_blank(old(self).spec_color()),
            decreases SCREEN_WIDTH - col,
        {
            self.buffer.set((SCREEN_HEIGHT - 1) * SCREEN_WIDTH + col, blank_char);
            col = col + 1;
        }

        self.row = SCREEN_HEIGHT - 1;
        self.col = 0;
        proof {
            assert(self@ =~= spec_scroll(old(self)@, old(self).spec_color()));
        }
    }

    /// Writes a string byte by byte: printable characters and newlines
    /// as they are, anything else as the replacement character. Never
    /// fails.
    pub fn write_str(&mut self, string: &str) -> (r: Result<(), ()>)
        requires
            old(self).wf(),
        ensures
            final (self).wf(),
            final (self).spec_color() == old(self).spec_color(),
            r is Ok,
            ({
                let done = spec_write_string(
                    old(self)@,
                    old(self).spec_row(),
                    old(self).spec_col(),
                    old(self).spec_color(),
                    string.spec_bytes(),
                    0,
                );
                final (self)@ == done.0 && final (self).spec_row() == done.1
                    && final (self).spec_col() == done.2
            }),
    {
        let bytes = string.as_bytes();
        let ghost done = spec_write_string(
            old(self)@,
            old(self).spec_row(),
            old(self).spec_col(),
            old(self).spec_color(),
            string.spec_bytes(),
            0,
        );
        let mut i: usize = 0;
        while i < bytes.len()
            invariant
                self.wf(),
                i <= bytes@.len(),
                bytes@ == string.spec_bytes(),
                self.spec_color() == old(self).spec_color(),
                spec_write_string(
                    self@,
                    self.spec_row(),
                    self.spec_col(),
                    self.spec_color(),
                    bytes@,
                    i as int,
                ) == done,
            decreases bytes@.len() - i,
        {
            let byte = bytes[i];
            if (32u8 <= byte && byte <= 126u8) || byte == 10u8 {
                self.write_byte(byte);
            } else {
                self.write_byte(254);
            }
            i = i + 1;
        }
        Ok(())
    }
}

} // verus!
