use vstd::prelude::*;
use vstd::string::StringSliceAdditionalSpecFns;

verus! {

/// The count of the available rows.
pub const HEIGHT: usize = 25;

/// The count of character cells in one row.
/// Each cell takes two bytes on the device (character byte, attribute byte).
pub const WIDTH: usize = 80;

/// The count of cells in a full grid.
pub const CELLS: usize = WIDTH * HEIGHT;

/// The count of bytes the device region holds: two bytes per cell, row-major.
pub const FRAME_BYTES: usize = 2 * CELLS;

/// Four-bit foreground codes of the palette.
#[derive(Clone, Copy, PartialEq, Eq, Structural, Debug)]
pub enum ForegroundColorCodes {
    WHITE,
    BLACK,
    BLUE,
    RED,
    GREEN,
}

/// Four-bit background codes of the palette.
#[derive(Clone, Copy, PartialEq, Eq, Structural, Debug)]
pub enum BackgroundColorCodes {
    WHITE,
    BLACK,
    BLUE,
    RED,
    GREEN,
}

pub open spec fn fg_code(c: ForegroundColorCodes) -> u8 {
    match c {
        ForegroundColorCodes::WHITE => 15,
        ForegroundColorCodes::BLACK => 0,
        ForegroundColorCodes::BLUE => 1,
        ForegroundColorCodes::RED => 4,
        ForegroundColorCodes::GREEN => 2,
    }
}

pub open spec fn bg_code(c: BackgroundColorCodes) -> u8 {
    match c {
        BackgroundColorCodes::WHITE => 15,
        BackgroundColorCodes::BLACK => 0,
        BackgroundColorCodes::BLUE => 1,
        BackgroundColorCodes::RED => 4,
        BackgroundColorCodes::GREEN => 2,
    }
}

impl ForegroundColorCodes {
    /// The four-bit palette code of this foreground color.
    pub fn code(&self) -> (r: u8)
        ensures
            r == fg_code(*self),
            r < 16,
    {
        match self {
            ForegroundColorCodes::WHITE => 15,
            ForegroundColorCodes::BLACK => 0,
            ForegroundColorCodes::BLUE => 1,
            ForegroundColorCodes::RED => 4,
            ForegroundColorCodes::GREEN => 2,
        }
    }
}

impl BackgroundColorCodes {
    /// The four-bit palette code of this background color.
    pub fn code(&self) -> (r: u8)
        ensures
            r == bg_code(*self),
            r < 16,
    {
        match self {
            BackgroundColorCodes::WHITE => 15,
            BackgroundColorCodes::BLACK => 0,
            BackgroundColorCodes::BLUE => 1,
            BackgroundColorCodes::RED => 4,
            BackgroundColorCodes::GREEN => 2,
        }
    }
}

/// A foreground and background pair, packed on the device into one attribute byte.
#[derive(Clone, Copy, PartialEq, Eq, Structural, Debug)]
pub struct Color {
    background: BackgroundColorCodes,
    foreground: ForegroundColorCodes,
}

/// The attribute byte of a color: `background << 4 | foreground`.
pub open spec fn attribute_of(c: Color) -> u8 {
    (bg_code(c.spec_background()) * 16 + fg_code(c.spec_foreground())) as u8
}

impl Color {
    pub closed spec fn spec_background(&self) -> BackgroundColorCodes {
        self.background
    }

    pub closed spec fn spec_foreground(&self) -> ForegroundColorCodes {
        self.foreground
    }

    pub fn new(background: BackgroundColorCodes, foreground: ForegroundColorCodes) -> (r: Self)
        ensures
            r.spec_background() == background,
            r.spec_foreground() == foreground,
    {
        Self { background, foreground }
    }

    /// The attribute byte that the device reads for this color.
    pub fn as_byte(&self) -> (r: u8)
        ensures
            r == attribute_of(*self),
    {
        let b = self.background.code();
        let f = self.foreground.code();
        assert((b << 4u8) | f == b * 16 + f) by (bit_vector)
            requires
                b < 16,
                f < 16,
        ;
        (b << 4u8) | f
    }
}

/// The default color: white on black.
pub closed spec fn default_color() -> Color {
    Color { background: BackgroundColorCodes::BLACK, foreground: ForegroundColorCodes::WHITE }
}

impl Default for Color {
    fn default() -> (r: Self)
        ensures
            r == default_color(),
            r.spec_background() == BackgroundColorCodes::BLACK,
            r.spec_foreground() == ForegroundColorCodes::WHITE,
    {
        Self::new(BackgroundColorCodes::BLACK, ForegroundColorCodes::WHITE)
    }
}

/// One displayable unit: a character byte and its color.
#[derive(Clone, Copy, PartialEq, Eq, Structural, Debug)]
pub struct ScreenCharacter {
    pub color: Color,
    pub character: u8,
}

/// The blank cell: character 0 in the default color.
pub open spec fn blank_cell() -> ScreenCharacter {
    ScreenCharacter { color: default_color(), character: 0 }
}

/// The cell that a written byte becomes: the byte in the default color.
pub open spec fn text_cell(b: u8) -> ScreenCharacter {
    ScreenCharacter { color: default_color(), character: b }
}

impl Default for ScreenCharacter {
    fn default() -> (r: Self)
        ensures
            r == blank_cell(),
    {
        Self { color: Color::default(), character: 0 }
    }
}

/// The index of cell `(col, row)` in a row-major grid.
pub open spec fn cell_index(col: int, row: int) -> int {
    row * WIDTH + col
}

/// A fixed `HEIGHT x WIDTH` grid of cells, stored row-major.
#[derive(Clone, Copy)]
pub struct ScreenBuffer {
    cells: [ScreenCharacter; CELLS],
}

impl View for ScreenBuffer {
    type V = Seq<ScreenCharacter>;

    closed spec fn view(&self) -> Seq<ScreenCharacter> {
        self.cells@
    }
}

impl ScreenBuffer {
    /// The cell at column `col` of row `row`.
    pub open spec fn spec_cell(&self, col: int, row: int) -> ScreenCharacter {
        self@[cell_index(col, row)]
    }

    /// A grid always holds `CELLS` cells.
    pub proof fn lemma_len(&self)
        ensures
            self@.len() == CELLS,
    {
    }

    /// A grid of blank cells.
    pub fn new() -> (r: Self)
        ensures
            r@.len() == CELLS,
            forall|i: int| 0 <= i < CELLS ==> #[trigger] r@[i] == blank_cell(),
    {
        Self { cells: [ScreenCharacter::default(); CELLS] }
    }

    /// The cell at column `col` of row `row`.
    pub fn get(&self, col: usize, row: usize) -> (r: ScreenCharacter)
        requires
            col < WIDTH,
            row < HEIGHT,
        ensures
            r == self.spec_cell(col as int, row as int),
    {
        self.cells[row * WIDTH + col]
    }

    /// Replaces the cell at column `col` of row `row`.
    pub fn set(&mut self, col: usize, row: usize, c: ScreenCharacter)
        requires
            col < WIDTH,
            row < HEIGHT,
        ensures
            final(self)@ == old(self)@.update(cell_index(col as int, row as int), c),
        no_unwind
    {
        self.cells[row * WIDTH + col] = c;
    }
}

/// The device byte at offset `i` of a flattened grid: an even offset holds the
/// character of cell `i / 2`, the odd offset after it that cell's attribute.
pub open spec fn frame_byte(cells: Seq<ScreenCharacter>, i: int) -> u8 {
    if i % 2 == 0 {
        cells[i / 2].character
    } else {
        attribute_of(cells[i / 2].color)
    }
}

/// The device encoding of a whole grid, two bytes per cell, row-major.
pub open spec fn frame_of(cells: Seq<ScreenCharacter>) -> Seq<u8> {
    Seq::new((2 * cells.len()) as nat, |i: int| frame_byte(cells, i))
}

/// Flattens a grid into the byte layout that the device reads.
pub fn screen_buffer_to_vga_array(buffer: ScreenBuffer) -> (r: [u8; FRAME_BYTES])
    ensures
        r@ == frame_of(buffer@),
{
    let mut flat = [0u8; FRAME_BYTES];
    let mut i: usize = 0;
    while i < CELLS
        invariant
            i <= CELLS,
            forall|j: int| 0 <= j < 2 * i ==> flat@[j] == frame_byte(buffer@, j),
        decreases CELLS - i,
    {
        let c = buffer.cells[i];
        flat[2 * i] = c.character;
        flat[2 * i + 1] = c.color.as_byte();
        i += 1;
    }
    assert(flat@ =~= frame_of(buffer@));
    flat
}

/// What a viewport holds, as mathematical values: the shadow buffer, the
/// device region, the cursor (a byte offset within the row, and a row) and
/// whether writes reach the device.
pub ghost struct Screen {
    pub cells: Seq<ScreenCharacter>,
    pub device: Seq<u8>,
    pub column_offset: int,
    pub row: int,
    pub mirrors: bool,
}

impl Screen {
    /// Sizes match the grid and the device, the cursor stands on a cell.
    pub open spec fn valid(self) -> bool {
        &&& self.cells.len() == CELLS
        &&& self.device.len() == FRAME_BYTES
        &&& 0 <= self.row < HEIGHT
        &&& 0 <= self.column_offset < 2 * WIDTH
        &&& self.column_offset % 2 == 0
    }

    /// Stores `c` in cell `(col, row)` of the shadow buffer and, when mirroring,
    /// its two device bytes.
    pub open spec fn put_cell(self, col: int, row: int, c: ScreenCharacter) -> Screen {
        let k = cell_index(col, row);
        Screen {
            cells: self.cells.update(k, c),
            device: if self.mirrors {
                self.device.update(2 * k, c.character).update(2 * k + 1, attribute_of(c.color))
            } else {
                self.device
            },
            ..self
        }
    }

    /// Ends the current line: back to offset 0, on the next row, wrapping to row 0.
    pub open spec fn new_line(self) -> Screen {
        Screen {
            column_offset: 0,
            row: if self.row + 1 >= HEIGHT {
                0
            } else {
                self.row + 1
            },
            ..self
        }
    }

    /// Writes `c` at the cursor and advances it by one cell, ending the line
    /// when the row is full.
    pub open spec fn put_char(self, c: ScreenCharacter) -> Screen {
        let s = self.put_cell(self.column_offset / 2, self.row, c);
        if self.column_offset + 2 >= 2 * WIDTH {
            s.new_line()
        } else {
            Screen { column_offset: self.column_offset + 2, ..s }
        }
    }

    /// The effect of one character of cursor-relative text.
    pub open spec fn step(self, ch: char) -> Screen {
        if ch == '\n' {
            self.new_line()
        } else {
            self.put_char(text_cell(ch as u8))
        }
    }

    /// The effect of cursor-relative text, one character after another.
    pub open spec fn write_chars(self, text: Seq<char>) -> Screen
        decreases text.len(),
    {
        if text.len() == 0 {
            self
        } else {
            self.write_chars(text.drop_last()).step(text.last())
        }
    }

    /// The effect of writing `bytes` from cell `(col, row)` on, one per column.
    pub open spec fn write_at(self, bytes: Seq<u8>, col: int, row: int) -> Screen {
        let start = cell_index(col, row);
        let end = start + bytes.len();
        Screen {
            cells: Seq::new(
                self.cells.len(),
                |k: int|
                    if start <= k < end {
                        text_cell(bytes[k - start])
                    } else {
                        self.cells[k]
                    },
            ),
            device: if self.mirrors {
                Seq::new(
                    self.device.len(),
                    |j: int|
                        if 2 * start <= j < 2 * end {
                            if j % 2 == 0 {
                                bytes[j / 2 - start]
                            } else {
                                attribute_of(default_color())
                            }
                        } else {
                            self.device[j]
                        },
                )
            } else {
                self.device
            },
            ..self
        }
    }

    /// Writing no bytes changes nothing.
    pub proof fn lemma_write_at_empty(self, col: int, row: int)
        requires
            self.valid(),
        ensures
            self.write_at(Seq::empty(), col, row) == self,
    {
        let r = self.write_at(Seq::empty(), col, row);
        assert(r.cells =~= self.cells);
        assert(r.device =~= self.device);
    }

    /// Writing one more byte after a run is storing that byte's cell after
    /// the run.
    pub proof fn lemma_write_at_push(self, bytes: Seq<u8>, x: u8, col: int, row: int)
        requires
            self.valid(),
            0 <= col,
            0 <= row < HEIGHT,
            col + bytes.len() < WIDTH,
        ensures
            self.write_at(bytes, col, row).put_cell(col + bytes.len(), row, text_cell(x))
                == self.write_at(bytes.push(x), col, row),
    {
        let first = cell_index(col, row);
        let k = first + bytes.len();
        let prev = self.write_at(bytes, col, row);
        let got = prev.put_cell(col + bytes.len(), row, text_cell(x));
        let next = self.write_at(bytes.push(x), col, row);
        assert(got.cells =~= next.cells);
        if self.mirrors {
            assert forall|j: int| 0 <= j < FRAME_BYTES implies got.device[j] == next.device[j] by {
                if j == 2 * k || j == 2 * k + 1 {
                    assert(j / 2 == k);
                } else if 2 * first <= j < 2 * k {
                    assert(bytes.push(x)[j / 2 - first] == bytes[j / 2 - first]);
                }
            }
        }
        assert(got.device =~= next.device);
    }
}

/// The screen after a reset: blank shadow buffer, zeroed device, cursor at
/// the origin, mirroring on.
pub open spec fn reset_screen() -> Screen {
    Screen {
        cells: Seq::new(CELLS as nat, |i: int| blank_cell()),
        device: Seq::new(FRAME_BYTES as nat, |i: int| 0u8),
        column_offset: 0,
        row: 0,
        mirrors: true,
    }
}

/// The write cursor: a byte offset within the row, always on a cell, and a row.
#[derive(Clone, Copy)]
struct Cursor {
    column_offset: usize,
    row: usize,
}

impl Cursor {
    #[verifier::type_invariant]
    spec fn inv(&self) -> bool {
        &&& self.row < HEIGHT
        &&& self.column_offset < 2 * WIDTH
        &&& self.column_offset % 2 == 0
    }
}

/// The stateful writer: owns the shadow buffer, the device region, the write
/// cursor and whether writes also reach the device.
pub struct Viewport {
    buffer: ScreenBuffer,
    write_to_vga_ptr: bool,
    cursor: Cursor,
    device: [u8; FRAME_BYTES],
}

impl View for Viewport {
    type V = Screen;

    closed spec fn view(&self) -> Screen {
        Screen {
            cells: self.buffer@,
            device: self.device@,
            column_offset: self.cursor.column_offset as int,
            row: self.cursor.row as int,
            mirrors: self.write_to_vga_ptr,
        }
    }
}

impl Viewport {
    /// Ends the current line: the cursor goes to offset 0 of the next row,
    /// and from the last row back to row 0.
    fn new_line(&mut self)
        ensures
            final(self)@ == old(self)@.new_line(),
    {
        proof { use_type_invariant(&self.cursor); }
        let row = if self.cursor.row + 1 >= HEIGHT {
            0
        } else {
            self.cursor.row + 1
        };
        self.cursor = Cursor { column_offset: 0, row };
    }

    /// Stores one cell in the shadow buffer and, when mirroring, on the device.
    fn write_char_to_pos(&mut self, screen_char: ScreenCharacter, pos: (usize, usize))
        requires
            pos.0 < WIDTH,
            pos.1 < HEIGHT,
        ensures
            final(self)@ == old(self)@.put_cell(pos.0 as int, pos.1 as int, screen_char),
    {
                let (col, row) = pos;
        self.buffer.set(col, row, screen_char);
        if self.write_to_vga_ptr {
            let k = row * WIDTH + col;
            self.device[2 * k] = screen_char.character;
            self.device[2 * k + 1] = screen_char.color.as_byte();
        }
    }

    /// Writes a char at the cursor and advances the cursor by one cell.
    fn write_char(&mut self, screen_char: ScreenCharacter)
        ensures
            final(self)@ == old(self)@.put_char(screen_char),
    {
        proof { use_type_invariant(&self.cursor); }
        let cursor = self.cursor;
        self.write_char_to_pos(screen_char, (cursor.column_offset / 2, cursor.row));
        if cursor.column_offset + 2 >= 2 * WIDTH {
            self.new_line();
        } else {
            self.cursor = Cursor { column_offset: cursor.column_offset + 2, row: cursor.row };
        }
    }

    /// Writes text at the cursor. A newline ends the line; every other
    /// character is written in the default color and advances the cursor one
    /// cell, ending the line when the row is full.
    pub fn write_str(&mut self, text: &str)
        ensures
            final(self)@ == old(self)@.write_chars(text@),
    {
        let ghost start = self@;
        for text_char in it: text.chars()
            invariant
                it.seq() == text@,
                self@ == start.write_chars(it.seq().take(it.index() as int)),
        {
            proof {
                let n = it.index() as int;
                assert(it.seq().take(n + 1).drop_last() == it.seq().take(n));
            }
            if text_char == '\n' {
                self.new_line();
            } else {
                self.write_char(ScreenCharacter { color: Color::default(), character: text_char as u8 });
            }
        }
        proof {
            assert(text@.take(text@.len() as int) == text@);
        }
    }

    /// Writes the bytes of `text` from cell `pos = (column, row)` on, one per
    /// column, in the default color. The cursor is neither read nor moved.
    pub fn write_str_to_pos(&mut self, text: &str, pos: (usize, usize))
        requires
            fits_at(text.spec_bytes().len(), pos),
        ensures
            final(self)@ == old(self)@.write_at(text.spec_bytes(), pos.0 as int, pos.1 as int),
    {
                proof { use_type_invariant(&self.cursor); }
        let ghost start = self@;
        let bytes = text.as_bytes();
        let (width, height) = pos;
        let mut idx: usize = 0;
        proof {
            assert(bytes@.take(0) == Seq::<u8>::empty());
            start.lemma_write_at_empty(width as int, height as int);
        }
        while idx < bytes.len()
            invariant
                bytes@ == text.spec_bytes(),
                fits_at(bytes@.len(), pos),
                (width, height) == pos,
                idx <= bytes@.len(),
                start.valid(),
                self@ == start.write_at(bytes@.take(idx as int), width as int, height as int),
            decreases bytes@.len() - idx,
        {
            let byte = bytes[idx];
            self.write_char_to_pos(
                ScreenCharacter { color: Color::default(), character: byte },
                (width + idx, height),
            );
            proof {
                assert(bytes@.take(idx + 1) == bytes@.take(idx as int).push(byte));
                start.lemma_write_at_push(bytes@.take(idx as int), byte, width as int, height as int);
            }
            idx += 1;
        }
        proof {
            assert(bytes@.take(bytes@.len() as int) == bytes@);
        }
    }

    /// Rewrites every device cell from `buffer`, cell by cell. The shadow
    /// buffer and the cursor are left as they are.
    pub fn redraw_buffer(&mut self, buffer: &ScreenBuffer)
        ensures
            final(self)@ == (Screen { device: frame_of(buffer@), ..old(self)@ }),
    {
                let mut i: usize = 0;
        while i < CELLS
            invariant
                i <= CELLS,
                self.buffer == old(self).buffer,
                self.write_to_vga_ptr == old(self).write_to_vga_ptr,
                self.cursor == old(self).cursor,
                forall|j: int| 0 <= j < 2 * i ==> self.device@[j] == frame_byte(buffer@, j),
            decreases CELLS - i,
        {
            let c = buffer.cells[i];
            self.device[2 * i] = c.character;
            self.device[2 * i + 1] = c.color.as_byte();
            i += 1;
        }
        assert(self.device@ =~= frame_of(buffer@));
    }

    /// Creates a viewport that holds `buffer` and shows it on the device.
    pub fn new_with_buffer(buffer: ScreenBuffer) -> (r: Self)
        ensures
            r@ == (Screen { cells: buffer@, device: frame_of(buffer@), ..reset_screen() }),
    {
        let mut viewport = Self::default();
        viewport.redraw_buffer(&buffer);
        viewport.buffer = buffer;
        viewport
    }

    /// Copies a flattened frame onto the device in one transfer. The shadow
    /// buffer and the cursor are left as they are.
    pub fn draw_frame(&mut self, frame: [u8; FRAME_BYTES])
        ensures
            final(self)@ == (Screen { device: frame@, ..old(self)@ }),
    {
                self.device = frame;
    }

    /// Blanks the shadow buffer, zeroes the device, puts the cursor at the
    /// origin and turns mirroring on.
    pub fn reset_viewport(&mut self)
        ensures
            final(self)@ == reset_screen(),
    {
        *self = Self::default();
    }

    /// The shadow buffer, for callers that fill it in place.
    pub fn buffer_mut(&mut self) -> (r: &mut ScreenBuffer)
        ensures
            r@ == old(self)@.cells,
            final(self)@ == (Screen { cells: final(r)@, ..old(self)@ }),
    {
        &mut self.buffer
    }

    /// The shadow buffer.
    pub fn buffer(&self) -> (r: &ScreenBuffer)
        ensures
            r@ == self@.cells,
    {
        &self.buffer
    }

    /// Sets whether writes also reach the device.
    pub fn set_write_to_vga_ptr(&mut self, write_to_vga_ptr: bool)
        ensures
            final(self)@ == (Screen { mirrors: write_to_vga_ptr, ..old(self)@ }),
    {
                self.write_to_vga_ptr = write_to_vga_ptr;
    }

    /// Whether writes also reach the device.
    pub fn writes_to_vga_ptr(&self) -> (r: bool)
        ensures
            r == self@.mirrors,
    {
        self.write_to_vga_ptr
    }

    /// The cursor: a byte offset within the row, and the row.
    pub fn cursor(&self) -> (r: (usize, usize))
        ensures
            r.0 == self@.column_offset,
            r.1 == self@.row,
    {
        (self.cursor.column_offset, self.cursor.row)
    }

    /// The bytes of the device region.
    pub fn device(&self) -> (r: &[u8; FRAME_BYTES])
        ensures
            r@ == self@.device,
    {
        &self.device
    }
}

impl Default for Viewport {
    fn default() -> (r: Self)
        ensures
            r@ == reset_screen(),
    {
        let r = Self {
            buffer: ScreenBuffer::new(),
            write_to_vga_ptr: true,
            cursor: Cursor { column_offset: 0, row: 0 },
            device: [0u8; FRAME_BYTES],
        };
        assert(r@.cells =~= reset_screen().cells);
        assert(r@.device =~= reset_screen().device);
        r
    }
}

/// Whether `len` bytes written from cell `pos = (column, row)` on stay
/// inside the grid: the start is a cell and the last byte lands in the same row.
pub open spec fn fits_at(len: nat, pos: (usize, usize)) -> bool {
    &&& pos.0 < WIDTH
    &&& pos.1 < HEIGHT
    &&& pos.0 + len <= WIDTH
}

/// Tells whether `text` may be written from cell `pos = (column, row)` on.
/// A position-addressed write outside the grid is a programming error: a
/// caller that cannot show the bound tests it here first and halts on `false`.
pub fn text_fits_at(text: &str, pos: (usize, usize)) -> (r: bool)
    ensures
        r == fits_at(text.spec_bytes().len(), pos),
{
    let len = text.as_bytes().len();
    pos.0 < WIDTH && pos.1 < HEIGHT && len <= WIDTH - pos.0
}

} // verus!
