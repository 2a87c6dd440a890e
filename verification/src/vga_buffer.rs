//! The VGA text-mode writer: a 25 x 80 grid of character cells, written on its
//! bottom row and scrolled up one row at each newline.

use vstd::prelude::*;
use vstd::string::StringSliceAdditionalSpecFns;

verus! {

/// Number of text rows on the screen.
pub const BUFFER_HEIGHT: usize = 25;

/// Number of character cells in a row.
pub const BUFFER_WIDTH: usize = 80;

/// Number of character cells on the screen.
pub const BUFFER_SIZE: usize = BUFFER_HEIGHT * BUFFER_WIDTH;

/// The sixteen VGA text colours.
#[derive(Clone, Copy, Debug, PartialEq, Eq, Structural)]
pub enum Color {
    Black,
    Blue,
    Green,
    Cyan,
    Red,
    Magenta,
    Brown,
    LightGray,
    DarkGray,
    LightBlue,
    LightGreen,
    LightCyan,
    LightRed,
    LightMagenta,
    Yellow,
    White,
}

impl Color {
    /// The 4-bit VGA number of the colour.
    pub open spec fn spec_as_u8(self) -> u8 {
        match self {
            Color::Black => 0,
            Color::Blue => 1,
            Color::Green => 2,
            Color::Cyan => 3,
            Color::Red => 4,
            Color::Magenta => 5,
            Color::Brown => 6,
            Color::LightGray => 7,
            Color::DarkGray => 8,
            Color::LightBlue => 9,
            Color::LightGreen => 10,
            Color::LightCyan => 11,
            Color::LightRed => 12,
            Color::LightMagenta => 13,
            Color::Yellow => 14,
            Color::White => 15,
        }
    }

    /// The 4-bit VGA number of the colour.
    #[verifier::when_used_as_spec(spec_as_u8)]
    pub fn as_u8(self) -> (v: u8)
        ensures
            v == self.spec_as_u8(),
    {
        match self {
            Color::Black => 0,
            Color::Blue => 1,
            Color::Green => 2,
            Color::Cyan => 3,
            Color::Red => 4,
            Color::Magenta => 5,
            Color::Brown => 6,
            Color::LightGray => 7,
            Color::DarkGray => 8,
            Color::LightBlue => 9,
            Color::LightGreen => 10,
            Color::LightCyan => 11,
            Color::LightRed => 12,
            Color::LightMagenta => 13,
            Color::Yellow => 14,
            Color::White => 15,
        }
    }
}

/// A VGA attribute byte: background colour in the high nibble, foreground
/// colour in the low nibble.
#[derive(Debug, Clone, Copy, PartialEq, Eq, Structural)]
pub struct ColorCode(pub u8);

/// The attribute byte for `fg` on `bg`.
pub open spec fn color_code_byte(fg: Color, bg: Color) -> u8 {
    (bg.spec_as_u8() * 16 + fg.spec_as_u8()) as u8
}

impl ColorCode {
    /// Packs a foreground and a background colour into an attribute byte.
    pub fn new(fg: Color, bg: Color) -> (code: ColorCode)
        ensures
            code.0 == color_code_byte(fg, bg),
            code.0 == bg.spec_as_u8() * 16 + fg.spec_as_u8(),
    {
        let f: u8 = fg.as_u8();
        let b: u8 = bg.as_u8();
        assert((b << 4u8) | f == b * 16 + f) by (bit_vector)
            requires
                b < 16,
                f < 16,
        ;
        ColorCode((b << 4u8) | f)
    }
}

/// One cell of the screen: a code page 437 character and its attribute byte.
#[derive(Debug, Clone, Copy, PartialEq, Eq, Structural)]
pub struct ScreenChar {
    pub ascii_char: u8,
    pub color_code: ColorCode,
}

/// The blank cell (a space) in the given colour.
pub open spec fn blank(color: ColorCode) -> ScreenChar {
    ScreenChar { ascii_char: 0x20, color_code: color }
}

/// Position of the cell at `row`, `col` in the row-major cell sequence.
pub open spec fn cell_index(row: int, col: int) -> int {
    row * BUFFER_WIDTH + col
}

/// The byte that the writer prints for `b`: printable ASCII and newline stand
/// for themselves, every other byte prints as the square glyph `0xfe`.
pub open spec fn vga_byte(b: u8) -> u8 {
    if (0x20 <= b && b <= 0x7e) || b == 0x0a {
        b
    } else {
        0xfe
    }
}

/// The bytes that the writer prints for `bytes`.
pub open spec fn vga_bytes(bytes: Seq<u8>) -> Seq<u8> {
    bytes.map_values(|b: u8| vga_byte(b))
}

/// What the screen shows, row by row, with the position where the next byte
/// goes on the bottom row and the colour it is written in.
pub struct Screen {
    pub cells: Seq<ScreenChar>,
    pub column: nat,
    pub color: ColorCode,
}

impl Screen {
    /// The grid has its full size and the column is within a row.
    pub open spec fn wf(self) -> bool {
        &&& self.cells.len() == BUFFER_SIZE
        &&& self.column <= BUFFER_WIDTH
    }

    /// The cell at `row`, `col`.
    pub open spec fn cell(self, row: int, col: int) -> ScreenChar {
        self.cells[cell_index(row, col)]
    }

    /// Blanks the cells in columns `0..BUFFER_HEIGHT` of `row`; the rest of
    /// the grid is kept.
    pub open spec fn clear_row(self, row: int) -> Screen {
        Screen {
            cells: Seq::new(
                self.cells.len(),
                |i: int|
                    if cell_index(row, 0) <= i < cell_index(row, BUFFER_HEIGHT as int) {
                        blank(self.color)
                    } else {
                        self.cells[i]
                    },
            ),
            column: self.column,
            color: self.color,
        }
    }

    /// Every row takes the contents of the row below it; the bottom row keeps
    /// its contents.
    pub open spec fn shift_up(self) -> Seq<ScreenChar> {
        Seq::new(
            self.cells.len(),
            |i: int|
                if i < cell_index(BUFFER_HEIGHT - 1, 0) {
                    self.cells[i + BUFFER_WIDTH]
                } else {
                    self.cells[i]
                },
        )
    }

    /// Scrolls the screen up one row, clears the bottom row and moves the
    /// column back to the start of the row.
    pub open spec fn newline(self) -> Screen {
        Screen { cells: self.shift_up(), column: 0, color: self.color }.clear_row(
            BUFFER_HEIGHT - 1,
        )
    }

    /// The screen after the writer receives `byte`.
    pub open spec fn put_byte(self, byte: u8) -> Screen {
        if byte == 0x0a {
            self.newline()
        } else {
            let s = if self.column >= BUFFER_WIDTH {
                self.newline()
            } else {
                self
            };
            Screen {
                cells: s.cells.update(
                    cell_index(BUFFER_HEIGHT - 1, s.column as int),
                    ScreenChar { ascii_char: byte, color_code: s.color },
                ),
                column: s.column + 1,
                color: s.color,
            }
        }
    }

    /// The screen after the writer receives `bytes`, one after the other.
    pub open spec fn put_bytes(self, bytes: Seq<u8>) -> Screen
        decreases bytes.len(),
    {
        if bytes.len() == 0 {
            self
        } else {
            self.put_bytes(bytes.drop_last()).put_byte(bytes.last())
        }
    }
}

/// The screen memory: `BUFFER_HEIGHT` rows of `BUFFER_WIDTH` cells, row-major.
pub struct Buffer {
    chars: Vec<ScreenChar>,
}

impl View for Buffer {
    type V = Seq<ScreenChar>;

    closed spec fn view(&self) -> Seq<ScreenChar> {
        self.chars@
    }
}

impl Buffer {
    /// A screen whose every cell holds `c`.
    pub fn filled(c: ScreenChar) -> (buf: Buffer)
        ensures
            buf@.len() == BUFFER_SIZE,
            forall|i: int| 0 <= i < BUFFER_SIZE ==> buf@[i] == c,
    {
        let mut chars: Vec<ScreenChar> = Vec::new();
        for i in 0..BUFFER_SIZE
            invariant
                chars@.len() == i,
                forall|j: int| 0 <= j < i ==> chars@[j] == c,
        {
            chars.push(c);
        }
        Buffer { chars }
    }

    /// A screen with the given cells, row-major; `None` unless there are
    /// exactly `BUFFER_SIZE` of them.
    pub fn from_cells(cells: Vec<ScreenChar>) -> (r: Option<Buffer>)
        ensures
            r is Some <==> cells@.len() == BUFFER_SIZE,
            r matches Some(buf) ==> buf@ == cells@,
    {
        if cells.len() == BUFFER_SIZE {
            Some(Buffer { chars: cells })
        } else {
            None
        }
    }
}

/// Writes characters on the bottom row of the screen, in one colour,
/// scrolling up at each newline and when the row is full.
pub struct Writer {
    colomn_position: usize,
    color_code: ColorCode,
    buffer: Buffer,
}

impl View for Writer {
    type V = Screen;

    closed spec fn view(&self) -> Screen {
        Screen {
            cells: self.buffer@,
            column: self.colomn_position as nat,
            color: self.color_code,
        }
    }
}

impl Writer {
    /// A writer at the start of the bottom row of `buffer`.
    pub fn new(color_code: ColorCode, buffer: Buffer) -> (w: Writer)
        requires
            buffer@.len() == BUFFER_SIZE,
        ensures
            w@ == (Screen { cells: buffer@, column: 0, color: color_code }),
            w@.wf(),
    {
        Writer { colomn_position: 0, color_code, buffer }
    }

    /// Writes one byte: a newline scrolls, any other byte goes to the next
    /// cell of the bottom row, after a scroll when the row is full.
    pub fn write_byte(&mut self, byte: u8)
        requires
            old(self)@.wf(),
        ensures
            final(self)@ == old(self)@.put_byte(byte),
            final(self)@.wf(),
    {
        match byte {
            0x0a => self.newline(),
            byte => {
                if self.colomn_position >= BUFFER_WIDTH {
                    self.newline();
                }
                let row: usize = BUFFER_HEIGHT - 1;
                let col: usize = self.colomn_position;
                let color_code = self.color_code;
                self.buffer.chars.set(row * BUFFER_WIDTH + col, ScreenChar { ascii_char: byte, color_code });
                self.colomn_position += 1;
            },
        }
    }

    /// Writes the UTF-8 bytes of `s` one by one; printable ASCII and newlines
    /// go through as they are, every other byte as `0xfe`.
    pub fn write_string(&mut self, s: &str)
        requires
            old(self)@.wf(),
        ensures
            final(self)@ == old(self)@.put_bytes(vga_bytes(s.spec_bytes())),
            final(self)@.wf(),
    {
        let ghost start = self@;
        let bytes: &[u8] = s.as_bytes();
        let n: usize = bytes.len();
        for i in 0..n
            invariant
                n == bytes@.len(),
                bytes@ == s.spec_bytes(),
                self@.wf(),
                self@ == start.put_bytes(vga_bytes(bytes@).take(i as int)),
        {
            let byte: u8 = bytes[i];
            proof {
                let m = vga_bytes(bytes@);
                assert(m.take(i + 1).drop_last() =~= m.take(i as int));
            }
            match byte {
                0x20..=0x7e | 0x0a => self.write_byte(byte),
                _ => self.write_byte(0xfe),
            }
        }
        proof {
            assert(vga_bytes(bytes@).take(n as int) =~= vga_bytes(bytes@));
        }
    }

    /// The cell at `row`, `col`.
    pub fn char_at(&self, row: usize, col: usize) -> (c: ScreenChar)
        requires
            self@.wf(),
            row < BUFFER_HEIGHT,
            col < BUFFER_WIDTH,
        ensures
            c == self@.cell(row as int, col as int),
    {
        self.buffer.chars[row * BUFFER_WIDTH + col]
    }

    /// The column of the bottom row where the next byte goes.
    pub fn column_position(&self) -> (col: usize)
        ensures
            col == self@.column,
    {
        self.colomn_position
    }

    /// The colour the writer writes in.
    pub fn color_code(&self) -> (code: ColorCode)
        ensures
            code == self@.color,
    {
        self.color_code
    }

    /// Scrolls every row up by one, clears the bottom row and returns to its
    /// first column.
    fn newline(&mut self)
        requires
            old(self)@.wf(),
        ensures
            final(self)@ == old(self)@.newline(),
            final(self)@.wf(),
    {
        let ghost start = self@;
        for row in 1..BUFFER_HEIGHT
            invariant
                self.buffer@.len() == BUFFER_SIZE,
                self.color_code == start.color,
                self.colomn_position == start.column,
                start.wf(),
                forall|i: int| 0 <= i < cell_index(row - 1, 0) ==> self.buffer@[i] == start.cells[i + BUFFER_WIDTH],
                forall|i: int| cell_index(row - 1, 0) <= i < BUFFER_SIZE ==> self.buffer@[i] == start.cells[i],
        {
            for col in 0..BUFFER_WIDTH
                invariant
                    1 <= row < BUFFER_HEIGHT,
                    self.buffer@.len() == BUFFER_SIZE,
                    self.color_code == start.color,
                    self.colomn_position == start.column,
                    start.wf(),
                    forall|i: int| 0 <= i < cell_index(row - 1, col as int) ==> self.buffer@[i] == start.cells[i + BUFFER_WIDTH],
                    forall|i: int| cell_index(row - 1, col as int) <= i < BUFFER_SIZE ==> self.buffer@[i] == start.cells[i],
            {
                let c: ScreenChar = self.buffer.chars[row * BUFFER_WIDTH + col];
                self.buffer.chars.set((row - 1) * BUFFER_WIDTH + col, c);
            }
        }
        proof {
            assert(self.buffer@ =~= start.shift_up());
        }
        self.clear_row(BUFFER_HEIGHT - 1);
        self.colomn_position = 0;
        proof {
            assert(self@.cells =~= start.newline().cells);
        }
    }

    /// Blanks the cells in columns `0..BUFFER_HEIGHT` of `row`, in the
    /// writer's colour.
    fn clear_row(&mut self, row: usize)
        requires
            old(self)@.wf(),
            row < BUFFER_HEIGHT,
        ensures
            final(self)@ == old(self)@.clear_row(row as int),
            final(self)@.wf(),
    {
        let ghost start = self@;
        let character = ScreenChar { ascii_char: 0x20, color_code: self.color_code };
        for col in 0..BUFFER_HEIGHT
            invariant
                row < BUFFER_HEIGHT,
                self.buffer@.len() == BUFFER_SIZE,
                self.color_code == start.color,
                self.colomn_position == start.column,
                character == blank(start.color),
                forall|i: int|
                    0 <= i < BUFFER_SIZE ==> self.buffer@[i] == (if cell_index(row as int, 0) <= i < cell_index(row as int, col as int) {
                        blank(start.color)
                    } else {
                        start.cells[i]
                    }),
        {
            self.buffer.chars.set(row * BUFFER_WIDTH + col, character);
        }
        proof {
            assert(self.buffer@ =~= start.clear_row(row as int).cells);
        }
    }
}

/// The attribute byte keeps both colours: the foreground is its low nibble
/// and the background its high nibble, so distinct colour pairs give
/// distinct attribute bytes.
pub proof fn lemma_color_code_decodes(fg: Color, bg: Color)
    ensures
        color_code_byte(fg, bg) % 16 == fg.spec_as_u8(),
        color_code_byte(fg, bg) / 16 == bg.spec_as_u8(),
        forall|fg2: Color, bg2: Color|
            #[trigger] color_code_byte(fg2, bg2) == color_code_byte(fg, bg) ==> fg2 == fg && bg2 == bg,
{
    assert forall|fg2: Color, bg2: Color|
        #[trigger] color_code_byte(fg2, bg2) == color_code_byte(fg, bg) implies fg2 == fg && bg2 == bg by {
        assert(fg2.spec_as_u8() == fg.spec_as_u8());
        assert(bg2.spec_as_u8() == bg.spec_as_u8());
    }
}

/// The bytes printed for two strings one after the other are the bytes
/// printed for their concatenation.
pub proof fn lemma_vga_bytes_concat(a: Seq<u8>, b: Seq<u8>)
    ensures
        vga_bytes(a + b) == vga_bytes(a) + vga_bytes(b),
{
    assert(vga_bytes(a + b) =~= vga_bytes(a) + vga_bytes(b));
}

/// Writing `a` and then `b` leaves the screen as writing `a + b` does.
pub proof fn lemma_put_bytes_concat(s: Screen, a: Seq<u8>, b: Seq<u8>)
    ensures
        s.put_bytes(a + b) == s.put_bytes(a).put_bytes(b),
    decreases b.len(),
{
    if b.len() == 0 {
        assert(a + b =~= a);
    } else {
        assert((a + b).drop_last() =~= a + b.drop_last());
        lemma_put_bytes_concat(s, a, b.drop_last());
    }
}

/// Writing a string and then another shows on the screen what writing their
/// concatenation in one call does.
pub proof fn lemma_write_string_concat(s: Screen, a: Seq<u8>, b: Seq<u8>)
    ensures
        s.put_bytes(vga_bytes(a + b)) == s.put_bytes(vga_bytes(a)).put_bytes(vga_bytes(b)),
{
    lemma_vga_bytes_concat(a, b);
    lemma_put_bytes_concat(s, vga_bytes(a), vga_bytes(b));
}

/// Every step of the writer keeps the screen well formed.
pub proof fn lemma_put_bytes_wf(s: Screen, bytes: Seq<u8>)
    requires
        s.wf(),
    ensures
        s.put_bytes(bytes).wf(),
        s.put_bytes(bytes).color == s.color,
    decreases bytes.len(),
{
    if bytes.len() > 0 {
        lemma_put_bytes_wf(s, bytes.drop_last());
    }
}

/// Printable bytes print as themselves.
pub open spec fn all_printable(bytes: Seq<u8>) -> bool {
    forall|i: int| 0 <= i < bytes.len() ==> 0x20 <= #[trigger] bytes[i] <= 0x7e
}

/// Bytes that fit on one row, written from the start of the bottom row, fill
/// its first cells in order and leave the column just after them.
proof fn lemma_put_row(s: Screen, bytes: Seq<u8>)
    requires
        s.wf(),
        s.column == 0,
        bytes.len() <= BUFFER_WIDTH,
        all_printable(bytes),
    ensures
        s.put_bytes(bytes).wf(),
        s.put_bytes(bytes).column == bytes.len(),
        s.put_bytes(bytes).color == s.color,
        forall|j: int|
            0 <= j < bytes.len() ==> #[trigger] s.put_bytes(bytes).cell(BUFFER_HEIGHT - 1, j)
                == (ScreenChar { ascii_char: bytes[j], color_code: s.color }),
    decreases bytes.len(),
{
    if bytes.len() > 0 {
        let prefix = bytes.drop_last();
        assert(all_printable(prefix)) by {
            assert forall|i: int| 0 <= i < prefix.len() implies 0x20 <= #[trigger] prefix[i] <= 0x7e by {
                assert(prefix[i] == bytes[i]);
            }
        }
        lemma_put_row(s, prefix);
        let t = s.put_bytes(prefix);
        assert(bytes.last() == bytes[bytes.len() - 1]);
        assert forall|j: int| 0 <= j < bytes.len() implies #[trigger] s.put_bytes(bytes).cell(BUFFER_HEIGHT - 1, j)
            == (ScreenChar { ascii_char: bytes[j], color_code: s.color }) by {
            if j < prefix.len() {
                assert(t.cell(BUFFER_HEIGHT - 1, j) == (ScreenChar { ascii_char: prefix[j], color_code: s.color }));
            }
        }
    }
}

/// A line that fits on one row, printed from the start of a row and ended by
/// a newline, reads back from the row just above the bottom one, and the
/// writer is at the start of the new bottom row.
pub proof fn lemma_println_reads_back(s: Screen, line: Seq<u8>)
    requires
        s.wf(),
        s.column == 0,
        line.len() <= BUFFER_WIDTH,
        all_printable(line),
    ensures
        s.put_bytes(vga_bytes(line.push(0x0a))).column == 0,
        forall|j: int|
            0 <= j < line.len() ==> #[trigger] s.put_bytes(vga_bytes(line.push(0x0a))).cell(BUFFER_HEIGHT - 2, j)
                == (ScreenChar { ascii_char: line[j], color_code: s.color }),
{
    let printed = vga_bytes(line.push(0x0a));
    assert(printed =~= line.push(0x0a));
    assert(printed.drop_last() =~= line);
    lemma_put_row(s, line);
    let t = s.put_bytes(line);
    assert forall|j: int| 0 <= j < line.len() implies #[trigger] s.put_bytes(printed).cell(BUFFER_HEIGHT - 2, j)
        == (ScreenChar { ascii_char: line[j], color_code: s.color }) by {
        assert(t.cell(BUFFER_HEIGHT - 1, j) == (ScreenChar { ascii_char: line[j], color_code: s.color }));
        assert(cell_index(BUFFER_HEIGHT - 2, j) + BUFFER_WIDTH == cell_index(BUFFER_HEIGHT - 1, j));
    }
}

/// A newline scrolls: every row but the bottom one takes the contents of the
/// row below it, the first `BUFFER_HEIGHT` cells of the bottom row become
/// blank, its other cells keep their contents, and the column returns to 0.
pub proof fn lemma_newline_scrolls(s: Screen)
    requires
        s.wf(),
    ensures
        s.newline().wf(),
        s.newline().column == 0,
        s.newline().color == s.color,
        forall|row: int, col: int|
            0 <= row < BUFFER_HEIGHT - 1 && 0 <= col < BUFFER_WIDTH ==> #[trigger] s.newline().cell(row, col)
                == s.cell(row + 1, col),
        forall|col: int|
            0 <= col < BUFFER_HEIGHT ==> #[trigger] s.newline().cell(BUFFER_HEIGHT - 1, col) == blank(s.color),
        forall|col: int|
            BUFFER_HEIGHT <= col < BUFFER_WIDTH ==> #[trigger] s.newline().cell(BUFFER_HEIGHT - 1, col)
                == s.cell(BUFFER_HEIGHT - 1, col),
{
}

/// A byte other than a newline, written while the bottom row has room, fills
/// the cell at the column, moves the column on by one and leaves every other
/// cell as it was.
pub proof fn lemma_put_byte_in_row(s: Screen, byte: u8)
    requires
        s.wf(),
        byte != 0x0a,
        s.column < BUFFER_WIDTH,
    ensures
        s.put_byte(byte).wf(),
        s.put_byte(byte).column == s.column + 1,
        s.put_byte(byte).cell(BUFFER_HEIGHT - 1, s.column as int) == (ScreenChar {
            ascii_char: byte,
            color_code: s.color,
        }),
        forall|i: int|
            0 <= i < BUFFER_SIZE && i != cell_index(BUFFER_HEIGHT - 1, s.column as int)
                ==> #[trigger] s.put_byte(byte).cells[i] == s.cells[i],
{
}

/// `k` newline bytes in a row.
pub open spec fn newline_bytes(k: nat) -> Seq<u8> {
    Seq::new(k, |i: int| 0x0a as u8)
}

/// What the cell at `row`, `col` shows after `k` newlines in a row on `s`:
/// the cell `k` rows further down while that row exists; past the bottom,
/// a blank in the first `BUFFER_HEIGHT` columns and the bottom row's own
/// cell in the others, since a newline blanks only those first columns.
pub open spec fn cell_after_newlines(s: Screen, k: nat, row: int, col: int) -> ScreenChar {
    if row + k < BUFFER_HEIGHT {
        s.cell(row + k, col)
    } else if col < BUFFER_HEIGHT {
        blank(s.color)
    } else {
        s.cell(BUFFER_HEIGHT - 1, col)
    }
}

/// After `k` newlines in a row every row shows the row `k` below it; the
/// `k` rows that come in at the bottom are blank in columns
/// `0..BUFFER_HEIGHT` and repeat the old bottom row in the other columns;
/// the column is 0 once at least one newline was written.
pub proof fn lemma_newlines_scroll(s: Screen, k: nat)
    requires
        s.wf(),
    ensures
        s.put_bytes(newline_bytes(k)).wf(),
        s.put_bytes(newline_bytes(k)).color == s.color,
        k > 0 ==> s.put_bytes(newline_bytes(k)).column == 0,
        forall|row: int, col: int|
            0 <= row < BUFFER_HEIGHT && 0 <= col < BUFFER_WIDTH ==> #[trigger] s.put_bytes(
                newline_bytes(k),
            ).cell(row, col) == cell_after_newlines(s, k, row, col),
    decreases k,
{
    if k == 0 {
        assert(newline_bytes(0) =~= Seq::<u8>::empty());
        assert(s.put_bytes(newline_bytes(0)) == s);
    } else {
        let prev = (k - 1) as nat;
        assert(newline_bytes(k).drop_last() =~= newline_bytes(prev));
        assert(newline_bytes(k).last() == 0x0a);
        lemma_newlines_scroll(s, prev);
        let t = s.put_bytes(newline_bytes(prev));
        assert(s.put_bytes(newline_bytes(k)) == t.newline());
        lemma_newline_scrolls(t);
        assert forall|row: int, col: int|
            0 <= row < BUFFER_HEIGHT && 0 <= col < BUFFER_WIDTH implies #[trigger] s.put_bytes(
                newline_bytes(k),
            ).cell(row, col) == cell_after_newlines(s, k, row, col) by {
            if row < BUFFER_HEIGHT - 1 {
                assert(t.newline().cell(row, col) == t.cell(row + 1, col));
                assert(t.cell(row + 1, col) == cell_after_newlines(s, prev, row + 1, col));
            } else if col < BUFFER_HEIGHT {
                assert(t.newline().cell(row, col) == blank(t.color));
            } else {
                assert(t.newline().cell(row, col) == t.cell(BUFFER_HEIGHT - 1, col));
                assert(t.cell(BUFFER_HEIGHT - 1, col) == cell_after_newlines(s, prev, BUFFER_HEIGHT - 1, col));
            }
        }
    }
}

/// The colours carry their standard VGA palette numbers, and the attribute
/// byte of a colour pair is background times sixteen plus foreground.
pub proof fn lemma_vga_palette()
    ensures
        Color::Black.spec_as_u8() == 0,
        Color::Blue.spec_as_u8() == 1,
        Color::Green.spec_as_u8() == 2,
        Color::Cyan.spec_as_u8() == 3,
        Color::Red.spec_as_u8() == 4,
        Color::Magenta.spec_as_u8() == 5,
        Color::Brown.spec_as_u8() == 6,
        Color::LightGray.spec_as_u8() == 7,
        Color::DarkGray.spec_as_u8() == 8,
        Color::LightBlue.spec_as_u8() == 9,
        Color::LightGreen.spec_as_u8() == 10,
        Color::LightCyan.spec_as_u8() == 11,
        Color::LightRed.spec_as_u8() == 12,
        Color::LightMagenta.spec_as_u8() == 13,
        Color::Yellow.spec_as_u8() == 14,
        Color::White.spec_as_u8() == 15,
        color_code_byte(Color::Red, Color::Black) == 0x04,
        color_code_byte(Color::Green, Color::Black) == 0x02,
        color_code_byte(Color::Yellow, Color::Black) == 0x0e,
        color_code_byte(Color::White, Color::Blue) == 0x1f,
{
}

/// Only the newline byte makes the writer start a new line: every other byte
/// prints as itself when it is printable ASCII and as `0xfe` otherwise.
pub proof fn lemma_vga_byte_values(b: u8)
    ensures
        vga_byte(b) == 0x0a <==> b == 0x0a,
        0x20 <= b <= 0x7e ==> vga_byte(b) == b,
        !(0x20 <= b <= 0x7e) && b != 0x0a ==> vga_byte(b) == 0xfe,
{
}

/// Bytes other than newline that fit in the rest of the bottom row go into
/// consecutive cells from the column on, in the writer's colour; no other
/// cell changes and the column moves past them.
proof fn lemma_put_in_row(s: Screen, bytes: Seq<u8>)
    requires
        s.wf(),
        s.column + bytes.len() <= BUFFER_WIDTH,
        forall|i: int| 0 <= i < bytes.len() ==> #[trigger] bytes[i] != 0x0a,
    ensures
        s.put_bytes(bytes).wf(),
        s.put_bytes(bytes).column == s.column + bytes.len(),
        s.put_bytes(bytes).color == s.color,
        forall|i: int|
            0 <= i < BUFFER_SIZE && !(cell_index(BUFFER_HEIGHT - 1, s.column as int) <= i < cell_index(
                BUFFER_HEIGHT - 1,
                (s.column + bytes.len()) as int,
            )) ==> #[trigger] s.put_bytes(bytes).cells[i] == s.cells[i],
        forall|j: int|
            0 <= j < bytes.len() ==> #[trigger] s.put_bytes(bytes).cell(BUFFER_HEIGHT - 1, s.column + j)
                == (ScreenChar { ascii_char: bytes[j], color_code: s.color }),
    decreases bytes.len(),
{
    if bytes.len() > 0 {
        let prefix = bytes.drop_last();
        assert forall|i: int| 0 <= i < prefix.len() implies #[trigger] prefix[i] != 0x0a by {
            assert(prefix[i] == bytes[i]);
        }
        lemma_put_in_row(s, prefix);
        let t = s.put_bytes(prefix);
        assert(bytes.last() == bytes[bytes.len() - 1]);
        assert forall|j: int| 0 <= j < bytes.len() implies #[trigger] s.put_bytes(bytes).cell(
            BUFFER_HEIGHT - 1,
            s.column + j,
        ) == (ScreenChar { ascii_char: bytes[j], color_code: s.color }) by {
            if j < prefix.len() {
                assert(t.cell(BUFFER_HEIGHT - 1, s.column + j) == (ScreenChar {
                    ascii_char: prefix[j],
                    color_code: s.color,
                }));
            }
        }
    }
}

/// A string without newlines that fits in the rest of the bottom row is
/// printed there, byte by byte: printable ASCII as itself and every other
/// byte as `0xfe`, in the writer's colour. Nothing scrolls: every row above
/// the bottom one is unchanged, and the column moves on by the string's
/// length.
pub proof fn lemma_write_string_in_row(s: Screen, bytes: Seq<u8>)
    requires
        s.wf(),
        s.column + bytes.len() <= BUFFER_WIDTH,
        forall|i: int| 0 <= i < bytes.len() ==> #[trigger] bytes[i] != 0x0a,
    ensures
        s.put_bytes(vga_bytes(bytes)).wf(),
        s.put_bytes(vga_bytes(bytes)).column == s.column + bytes.len(),
        forall|row: int, col: int|
            0 <= row < BUFFER_HEIGHT - 1 && 0 <= col < BUFFER_WIDTH ==> #[trigger] s.put_bytes(
                vga_bytes(bytes),
            ).cell(row, col) == s.cell(row, col),
        forall|j: int|
            0 <= j < bytes.len() ==> #[trigger] s.put_bytes(vga_bytes(bytes)).cell(BUFFER_HEIGHT - 1, s.column + j)
                == (ScreenChar {
                ascii_char: if 0x20 <= bytes[j] <= 0x7e {
                    bytes[j]
                } else {
                    0xfe
                },
                color_code: s.color,
            }),
{
    let printed = vga_bytes(bytes);
    assert forall|i: int| 0 <= i < printed.len() implies #[trigger] printed[i] != 0x0a by {
        lemma_vga_byte_values(bytes[i]);
    }
    lemma_put_in_row(s, printed);
    assert forall|row: int, col: int|
        0 <= row < BUFFER_HEIGHT - 1 && 0 <= col < BUFFER_WIDTH implies #[trigger] s.put_bytes(printed).cell(
        row,
        col,
    ) == s.cell(row, col) by {
        assert(cell_index(row, col) < cell_index(BUFFER_HEIGHT - 1, 0));
    }
    assert forall|j: int| 0 <= j < bytes.len() implies #[trigger] s.put_bytes(printed).cell(
        BUFFER_HEIGHT - 1,
        s.column + j,
    ) == (ScreenChar {
        ascii_char: if 0x20 <= bytes[j] <= 0x7e {
            bytes[j]
        } else {
            0xfe
        },
        color_code: s.color,
    }) by {
        lemma_vga_byte_values(bytes[j]);
        assert(printed[j] == vga_byte(bytes[j]));
    }
}

/// A byte other than newline written when the bottom row is full scrolls the
/// whole screen first: every row but the bottom one takes the contents of
/// the row below it, the byte goes to column 0 of the bottom row, the rest
/// of the bottom row's first `BUFFER_HEIGHT` columns are blank, its other
/// cells keep their contents, and the column becomes 1.
pub proof fn lemma_put_byte_wraps(s: Screen, byte: u8)
    requires
        s.wf(),
        byte != 0x0a,
        s.column == BUFFER_WIDTH,
    ensures
        s.put_byte(byte).wf(),
        s.put_byte(byte).column == 1,
        s.put_byte(byte).color == s.color,
        forall|row: int, col: int|
            0 <= row < BUFFER_HEIGHT - 1 && 0 <= col < BUFFER_WIDTH ==> #[trigger] s.put_byte(byte).cell(row, col)
                == s.cell(row + 1, col),
        s.put_byte(byte).cell(BUFFER_HEIGHT - 1, 0) == (ScreenChar { ascii_char: byte, color_code: s.color }),
        forall|col: int|
            1 <= col < BUFFER_HEIGHT ==> #[trigger] s.put_byte(byte).cell(BUFFER_HEIGHT - 1, col) == blank(
                s.color,
            ),
        forall|col: int|
            BUFFER_HEIGHT <= col < BUFFER_WIDTH ==> #[trigger] s.put_byte(byte).cell(BUFFER_HEIGHT - 1, col)
                == s.cell(BUFFER_HEIGHT - 1, col),
{
    lemma_newline_scrolls(s);
    let t = s.newline();
    assert forall|row: int, col: int|
        0 <= row < BUFFER_HEIGHT - 1 && 0 <= col < BUFFER_WIDTH implies #[trigger] s.put_byte(byte).cell(row, col)
        == s.cell(row + 1, col) by {
        assert(t.cell(row, col) == s.cell(row + 1, col));
    }
    assert forall|col: int| 1 <= col < BUFFER_HEIGHT implies #[trigger] s.put_byte(byte).cell(
        BUFFER_HEIGHT - 1,
        col,
    ) == blank(s.color) by {
        assert(t.cell(BUFFER_HEIGHT - 1, col) == blank(s.color));
    }
    assert forall|col: int| BUFFER_HEIGHT <= col < BUFFER_WIDTH implies #[trigger] s.put_byte(byte).cell(
        BUFFER_HEIGHT - 1,
        col,
    ) == s.cell(BUFFER_HEIGHT - 1, col) by {
        assert(t.cell(BUFFER_HEIGHT - 1, col) == s.cell(BUFFER_HEIGHT - 1, col));
    }
}

} // verus!
