//! Diagnostic output onto a fixed 80x25 character grid.
//!
//! The writer always writes into the bottom row. A newline, or running past
//! the row width, scrolls every row up by one and blanks the bottom row.
//! Printable ASCII bytes are written as they are; every other byte is
//! replaced by a placeholder glyph.

use vstd::prelude::*;

pub mod color;

use crate::vga_buffer::color::ColorCode;
use vstd::string::StringSliceAdditionalSpecFns;

verus! {

/// Number of rows of the character grid.
pub const BUFFER_HEIGHT: usize = 25;

/// Number of columns of the character grid.
pub const BUFFER_WIDTH: usize = 80;

/// The glyph written in place of a byte that is neither printable ASCII nor
/// a newline.
pub const PLACEHOLDER_GLYPH: u8 = 0x3f;

/// A cell of the character grid: an ASCII byte together with its color
/// attribute.
#[derive(Debug, Clone, Copy, PartialEq, Eq)]
pub struct ScreenChar {
    pub ascii_character: u8,
    pub color_code: ColorCode,
}

/// The character cells of the grid, bottom row last.
struct Buffer {
    chars: Vec<Vec<ScreenChar>>,
}

/// The abstract state of a writer: the grid contents, the column the next
/// byte goes to, and the active color attribute.
#[verifier::ext_equal]
pub ghost struct ScreenState {
    pub grid: Seq<Seq<ScreenChar>>,
    pub column: nat,
    pub color: ColorCode,
}

/// The blank cell used when a row is cleared.
pub open spec fn blank_char(color: ColorCode) -> ScreenChar {
    ScreenChar { ascii_character: 0x20, color_code: color }
}

/// A full row of blank cells.
pub open spec fn blank_row(color: ColorCode) -> Seq<ScreenChar> {
    Seq::new(80, |c: int| blank_char(color))
}

/// A grid of blank rows.
pub open spec fn blank_grid(color: ColorCode) -> Seq<Seq<ScreenChar>> {
    Seq::new(25, |r: int| blank_row(color))
}

/// The grid after scrolling: every row moves up by one and the bottom row
/// becomes blank.
pub open spec fn scrolled(grid: Seq<Seq<ScreenChar>>, color: ColorCode) -> Seq<Seq<ScreenChar>> {
    Seq::new(25, |r: int| if r < 24 { grid[r + 1] } else { blank_row(color) })
}

impl ScreenState {
    /// The grid has 25 rows of 80 cells, and the column is at most the row
    /// width.
    pub open spec fn wf(self) -> bool {
        &&& self.grid.len() == 25
        &&& forall|r: int| 0 <= r < 25 ==> (#[trigger] self.grid[r]).len() == 80
        &&& self.column <= 80
    }
}

/// The state after a scroll: the grid shifts up and the column returns to
/// the start of the row.
pub open spec fn spec_scroll(s: ScreenState) -> ScreenState {
    ScreenState { grid: scrolled(s.grid, s.color), column: 0, color: s.color }
}

/// The state after writing one byte. A newline scrolls; any other byte is
/// placed at the current column of the bottom row, scrolling first if the
/// row is full, and advances the column by one.
pub open spec fn spec_write_byte(s: ScreenState, byte: u8) -> ScreenState {
    if byte == 0x0a {
        spec_scroll(s)
    } else {
        let t = if s.column >= 80 {
            spec_scroll(s)
        } else {
            s
        };
        ScreenState {
            grid: t.grid.update(
                24,
                t.grid[24].update(t.column as int, ScreenChar { ascii_character: byte, color_code: t.color }),
            ),
            column: t.column + 1,
            color: t.color,
        }
    }
}

/// The byte actually placed on the grid for an incoming byte: printable
/// ASCII and newline pass through, everything else becomes the placeholder
/// glyph.
pub open spec fn visible_byte(byte: u8) -> u8 {
    if 0x20 <= byte <= 0x7e || byte == 0x0a {
        byte
    } else {
        PLACEHOLDER_GLYPH
    }
}

/// The state after writing a whole sequence of bytes, each filtered through
/// `visible_byte`.
pub open spec fn spec_write_string(s: ScreenState, bytes: Seq<u8>) -> ScreenState
    decreases bytes.len(),
{
    if bytes.len() == 0 {
        s
    } else {
        spec_write_string(spec_write_byte(s, visible_byte(bytes[0])), bytes.drop_first())
    }
}

/// A writer onto the character grid. Wraps lines at the grid width and
/// supports the newline character.
pub struct Writer {
    column_position: usize,
    color_code: ColorCode,
    buffer: Buffer,
}

impl View for Writer {
    type V = ScreenState;

    closed spec fn view(&self) -> ScreenState {
        ScreenState {
            grid: self.buffer.chars@.map_values(|row: Vec<ScreenChar>| row@),
            column: self.column_position as nat,
            color: self.color_code,
        }
    }
}

impl Writer {
    /// The writer's representation matches a well-formed grid.
    pub open spec fn wf(self) -> bool {
        self@.wf()
    }

    /// Creates a writer over a blank grid, writing with the given color
    /// attribute.
    pub fn new(color_code: ColorCode) -> (w: Writer)
        ensures
            w.wf(),
            w@.grid =~~= blank_grid(color_code),
            w@.column == 0,
            w@.color == color_code,
    {
        let mut chars: Vec<Vec<ScreenChar>> = Vec::new();
        for r in 0..BUFFER_HEIGHT
            invariant
                chars@.len() == r,
                forall|i: int| 0 <= i < r ==> (#[trigger] chars@[i])@ =~= blank_row(color_code),
        {
            let mut row: Vec<ScreenChar> = Vec::new();
            for c in 0..BUFFER_WIDTH
                invariant
                    row@.len() == c,
                    forall|j: int| 0 <= j < c ==> row@[j] == blank_char(color_code),
            {
                row.push(ScreenChar { ascii_character: 0x20, color_code });
            }
            assert(row@ =~= blank_row(color_code));
            chars.push(row);
        }
        let w = Writer { column_position: 0, color_code, buffer: Buffer { chars } };
        assert(w@.grid =~~= blank_grid(color_code));
        w
    }

    /// Writes one ASCII byte to the grid.
    pub fn write_byte(&mut self, byte: u8)
        requires
            old(self).wf(),
        ensures
            final(self).wf(),
            final(self)@ == spec_write_byte(old(self)@, byte),
    {
        match byte {
            0x0a => self.new_line(),
            byte => {
                if self.column_position >= BUFFER_WIDTH {
                    self.new_line();
                }
                let ghost t: ScreenState = self@;
                assert(t == if old(self)@.column >= 80 { spec_scroll(old(self)@) } else { old(self)@ });
                assert(t.wf());

                let row = BUFFER_HEIGHT - 1;
                let col = self.column_position;
                proof {
                    assert(self.buffer.chars@.len() == t.grid.len());
                    assert(self.buffer.chars@[row as int]@ == t.grid[row as int]);
                }

                let color_code = self.color_code;
                self.buffer.chars[row][col] = ScreenChar { ascii_character: byte, color_code };
                self.column_position = self.column_position + 1;
                proof {
                    let sc = ScreenChar { ascii_character: byte, color_code: t.color };
                    assert(self@.grid =~~= t.grid.update(24, t.grid[24].update(t.column as int, sc)));
                    assert(self@ =~~= spec_write_byte(old(self)@, byte));
                }
            },
        }
    }

    /// Writes a string to the grid, replacing every byte that is neither
    /// printable ASCII nor a newline by the placeholder glyph.
    pub fn write_string(&mut self, s: &str)
        requires
            old(self).wf(),
        ensures
            final(self).wf(),
            final(self)@ == spec_write_string(old(self)@, s.spec_bytes()),
    {
        self.write_bytes(s.as_bytes());
    }

    /// Writes a sequence of bytes to the grid, replacing every byte that
    /// is neither printable ASCII nor a newline by the placeholder glyph.
    pub fn write_bytes(&mut self, bytes: &[u8])
        requires
            old(self).wf(),
        ensures
            final(self).wf(),
            final(self)@ == spec_write_string(old(self)@, bytes@),
    {
        let n = bytes.len();
        for i in 0..n
            invariant
                old(self).wf(),
                n == bytes@.len(),
                self.wf(),
                self@ == spec_write_string(old(self)@, bytes@.take(i as int)),
        {
            let byte = bytes[i];
            proof {
                lemma_write_string_snoc(old(self)@, bytes@.take(i as int), byte);
                assert(bytes@.take(i as int).push(byte) =~= bytes@.take(i + 1 as int));
            }
            if (0x20 <= byte && byte <= 0x7e) || byte == 0x0a {
                self.write_byte(byte);
            } else {
                self.write_byte(PLACEHOLDER_GLYPH);
            }
        }
        proof {
            assert(bytes@.take(n as int) =~= bytes@);
        }
    }

    /// Scrolls: shifts every row up by one, blanks the bottom row, and
    /// returns the column to the start of the row.
    fn new_line(&mut self)
        requires
            old(self).wf(),
        ensures
            final(self).wf(),
            final(self)@ == spec_scroll(old(self)@),
    {
        for row in 1..BUFFER_HEIGHT
            invariant
                old(self).wf(),
                self.wf(),
                self@.color == old(self)@.color,
                self@.column == old(self)@.column,
                forall|r: int| 0 <= r < row - 1 ==> #[trigger] self@.grid[r] == old(self)@.grid[r + 1],
                forall|r: int| row - 1 <= r < 25 ==> #[trigger] self@.grid[r] == old(self)@.grid[r],
        {
            for col in 0..BUFFER_WIDTH
                invariant
                    old(self).wf(),
                    1 <= row < 25,
                    self.wf(),
                    self@.color == old(self)@.color,
                    self@.column == old(self)@.column,
                    forall|r: int| 0 <= r < row - 1 ==> #[trigger] self@.grid[r] == old(self)@.grid[r + 1],
                    forall|r: int| row <= r < 25 ==> #[trigger] self@.grid[r] == old(self)@.grid[r],
                    self@.grid[row - 1] =~= old(self)@.grid[row as int].take(col as int)
                        + old(self)@.grid[row - 1].skip(col as int),
            {
                let ghost prev: ScreenState = self@;
                proof {
                    assert(self.buffer.chars@.len() == prev.grid.len());
                    assert(self.buffer.chars@[row as int]@ == prev.grid[row as int]);
                    assert(self.buffer.chars@[row - 1]@ == prev.grid[row - 1]);
                }
                let character = self.buffer.chars[row][col];
                self.buffer.chars[row - 1][col] = character;
                proof {
                    assert(self@.grid =~~= prev.grid.update(
                        row - 1,
                        prev.grid[row - 1].update(col as int, character),
                    ));
                }
            }
            assert(self@.grid[row - 1] =~= old(self)@.grid[row as int]);
        }
        self.clear_row(BUFFER_HEIGHT - 1);
        self.column_position = 0;
        assert(self@ =~~= spec_scroll(old(self)@));
    }

    /// Overwrites one row with blank cells in the active color.
    fn clear_row(&mut self, row: usize)
        requires
            old(self).wf(),
            row < 25,
        ensures
            final(self).wf(),
            final(self)@.grid =~~= old(self)@.grid.update(row as int, blank_row(old(self)@.color)),
            final(self)@.column == old(self)@.column,
            final(self)@.color == old(self)@.color,
    {
        let blank = ScreenChar { ascii_character: 0x20, color_code: self.color_code };
        for col in 0..BUFFER_WIDTH
            invariant
                old(self).wf(),
                row < 25,
                self.wf(),
                self@.color == old(self)@.color,
                self@.column == old(self)@.column,
                blank == blank_char(old(self)@.color),
                forall|r: int| 0 <= r < 25 && r != row ==> #[trigger] self@.grid[r] == old(self)@.grid[r],
                self@.grid[row as int] =~= blank_row(old(self)@.color).take(col as int)
                    + old(self)@.grid[row as int].skip(col as int),
        {
            let ghost prev: ScreenState = self@;
            proof {
                assert(self.buffer.chars@.len() == prev.grid.len());
                assert(self.buffer.chars@[row as int]@ == prev.grid[row as int]);
            }
            self.buffer.chars[row][col] = blank;
            proof {
                assert(self@.grid =~~= prev.grid.update(
                    row as int,
                    prev.grid[row as int].update(col as int, blank),
                ));
            }
        }
        assert(self@.grid[row as int] =~= blank_row(old(self)@.color));
        assert(self@.grid =~~= old(self)@.grid.update(row as int, blank_row(old(self)@.color)));
    }

    /// The cell at the given row and column.
    pub fn char_at(&self, row: usize, col: usize) -> (c: ScreenChar)
        requires
            self.wf(),
            row < 25,
            col < 80,
        ensures
            c == self@.grid[row as int][col as int],
    {
        proof {
            assert(self.buffer.chars@.len() == self@.grid.len());
            assert(self.buffer.chars@[row as int]@ == self@.grid[row as int]);
        }
        self.buffer.chars[row][col]
    }

    /// The column the next byte will be written to, unless a scroll
    /// intervenes.
    pub fn column_position(&self) -> (col: usize)
        ensures
            col == self@.column,
    {
        self.column_position
    }
}

/// Writing one byte moves the column as the grid demands: a newline
/// scrolls and returns it to zero; a printable byte advances it by exactly
/// one, unless the row was already full, in which case the grid scrolls
/// first and the byte lands at the start of the fresh bottom row.
pub proof fn lemma_write_advances_column(s: ScreenState, byte: u8)
    requires
        s.wf(),
        0x20 <= byte <= 0x7e || byte == 0x0a,
    ensures
        byte == 0x0a ==> spec_write_byte(s, byte).column == 0 && spec_write_byte(s, byte).grid
            == scrolled(s.grid, s.color),
        byte != 0x0a && s.column < 80 ==> spec_write_byte(s, byte).column == s.column + 1
            && spec_write_byte(s, byte).grid[24][s.column as int].ascii_character == byte,
        byte != 0x0a && s.column >= 80 ==> spec_write_byte(s, byte).column == 1 && spec_write_byte(
            s,
            byte,
        ).grid[24][0].ascii_character == byte,
{
}

/// Scrolling shifts every row up by one, and the bottom row afterwards is
/// blank.
pub proof fn lemma_scroll_shifts_rows(grid: Seq<Seq<ScreenChar>>, color: ColorCode)
    ensures
        forall|r: int| 0 <= r < 24 ==> #[trigger] scrolled(grid, color)[r] == grid[r + 1],
        scrolled(grid, color)[24] == blank_row(color),
        forall|c: int| 0 <= c < 80 ==> scrolled(grid, color)[24][c].ascii_character == 0x20,
{
}

/// How many scrolls writing one byte at the given column causes: a newline
/// always scrolls, any other byte scrolls exactly when the row is full.
pub open spec fn byte_scrolls(column: nat, byte: u8) -> nat {
    if byte == 0x0a || column >= 80 {
        1nat
    } else {
        0nat
    }
}

/// How many scrolls writing a byte sequence causes in total.
pub open spec fn scroll_count(s: ScreenState, bytes: Seq<u8>) -> nat
    decreases bytes.len(),
{
    if bytes.len() == 0 {
        0nat
    } else {
        byte_scrolls(s.column, visible_byte(bytes[0])) + scroll_count(
            spec_write_byte(s, visible_byte(bytes[0])),
            bytes.drop_first(),
        )
    }
}

/// How many scrolls writing `n` printable bytes from the given column
/// causes, counted column by column.
spec fn scrolls_from(column: nat, n: nat) -> nat
    decreases n,
{
    if n == 0 {
        0nat
    } else if column >= 80 {
        1nat + scrolls_from(1, (n - 1) as nat)
    } else {
        scrolls_from((column + 1) as nat, (n - 1) as nat)
    }
}

/// For printable bytes, the scroll count depends only on the starting
/// column and the number of bytes.
proof fn lemma_scroll_count_printable(s: ScreenState, bytes: Seq<u8>)
    requires
        forall|i: int| 0 <= i < bytes.len() ==> 0x20 <= #[trigger] bytes[i] <= 0x7e,
    ensures
        scroll_count(s, bytes) == scrolls_from(s.column, bytes.len() as nat),
    decreases bytes.len(),
{
    if bytes.len() > 0 {
        assert(visible_byte(bytes[0]) == bytes[0]);
        lemma_scroll_count_printable(spec_write_byte(s, bytes[0]), bytes.drop_first());
    }
}

/// The closed form of the scroll count: no scroll while the bytes still
/// fit in the current row, then one scroll for each further 80 bytes.
proof fn lemma_scrolls_from_closed(column: nat, n: nat)
    requires
        column <= 80,
    ensures
        scrolls_from(column, n) == if column + n <= 80 {
            0int
        } else {
            (column + n - 81) / 80 + 1
        },
    decreases n,
{
    if n > 0 {
        if column >= 80 {
            lemma_scrolls_from_closed(1, (n - 1) as nat);
            if 1 + (n - 1) > 80 {
                vstd::arithmetic::div_mod::lemma_div_plus_one(n - 81, 80);
            }
        } else {
            lemma_scrolls_from_closed((column + 1) as nat, (n - 1) as nat);
        }
    }
}

/// Writing a string of printable bytes from the start of a row scrolls
/// exactly once for every further 80 bytes: 80 bytes fill the bottom row
/// without a scroll, and each byte past a multiple of 80 starts by
/// scrolling the full row away.
pub proof fn lemma_one_scroll_per_eighty(s: ScreenState, bytes: Seq<u8>)
    requires
        s.wf(),
        s.column == 0,
        bytes.len() >= 1,
        forall|i: int| 0 <= i < bytes.len() ==> 0x20 <= #[trigger] bytes[i] <= 0x7e,
    ensures
        scroll_count(s, bytes) == (bytes.len() - 1) as int / 80,
{
    lemma_scroll_count_printable(s, bytes);
    lemma_scrolls_from_closed(0, bytes.len() as nat);
    let n = bytes.len() as int;
    if n > 80 {
        vstd::arithmetic::div_mod::lemma_div_plus_one(n - 81, 80);
    }
}

/// Writing a concatenation of byte sequences is writing the first, then
/// the second.
pub proof fn lemma_write_string_concat(s: ScreenState, a: Seq<u8>, b: Seq<u8>)
    ensures
        spec_write_string(s, a + b) == spec_write_string(spec_write_string(s, a), b),
    decreases a.len(),
{
    if a.len() == 0 {
        assert(a + b =~= b);
        assert(spec_write_string(s, a) == s);
    } else {
        assert((a + b)[0] == a[0]);
        assert((a + b).drop_first() =~= a.drop_first() + b);
        lemma_write_string_concat(spec_write_byte(s, visible_byte(a[0])), a.drop_first(), b);
    }
}

/// Printable bytes that fit in the remainder of the bottom row land cell
/// by cell: no scroll, the column advances by the byte count, and nothing
/// else on the grid moves.
pub proof fn lemma_write_fits_row(s: ScreenState, bytes: Seq<u8>)
    requires
        s.wf(),
        forall|i: int| 0 <= i < bytes.len() ==> 0x20 <= #[trigger] bytes[i] <= 0x7e,
        s.column + bytes.len() <= 80,
    ensures
        ({
            let t = spec_write_string(s, bytes);
            &&& t.wf()
            &&& t.color == s.color
            &&& t.column == s.column + bytes.len()
            &&& forall|c: int|
                s.column <= c < s.column + bytes.len() ==> t.grid[24][c] == (ScreenChar {
                    ascii_character: bytes[c - s.column],
                    color_code: s.color,
                })
            &&& forall|c: int|
                0 <= c < 80 && !(s.column <= c < s.column + bytes.len()) ==> t.grid[24][c]
                    == s.grid[24][c]
            &&& forall|r: int| 0 <= r < 24 ==> t.grid[r] == s.grid[r]
        }),
    decreases bytes.len(),
{
    if bytes.len() > 0 {
        let b0 = bytes[0];
        assert(visible_byte(b0) == b0);
        let s1 = spec_write_byte(s, b0);
        assert(s1.grid == s.grid.update(
            24,
            s.grid[24].update(s.column as int, ScreenChar { ascii_character: b0, color_code: s.color }),
        ));
        assert(s1.wf());
        lemma_write_fits_row(s1, bytes.drop_first());
        assert(spec_write_string(s, bytes) == spec_write_string(s1, bytes.drop_first()));
    }
}

/// Printable bytes written into a full bottom row scroll exactly once,
/// then fill the fresh bottom row from its start: the old bottom row moves
/// up to the row above, every higher row moves up one, and what the bytes
/// do not cover of the new bottom row stays blank.
pub proof fn lemma_write_after_full_row(s: ScreenState, bytes: Seq<u8>)
    requires
        s.wf(),
        s.column == 80,
        1 <= bytes.len() <= 80,
        forall|i: int| 0 <= i < bytes.len() ==> 0x20 <= #[trigger] bytes[i] <= 0x7e,
    ensures
        ({
            let t = spec_write_string(s, bytes);
            &&& t.wf()
            &&& t.color == s.color
            &&& t.column == bytes.len()
            &&& forall|c: int|
                0 <= c < bytes.len() ==> t.grid[24][c] == (ScreenChar {
                    ascii_character: bytes[c],
                    color_code: s.color,
                })
            &&& forall|c: int| bytes.len() <= c < 80 ==> t.grid[24][c] == blank_char(s.color)
            &&& t.grid[23] == s.grid[24]
            &&& forall|r: int| 0 <= r < 23 ==> #[trigger] t.grid[r] == s.grid[r + 1]
        }),
{
    let b0 = bytes[0];
    assert(visible_byte(b0) == b0);
    let sc = spec_scroll(s);
    let s1 = spec_write_byte(s, b0);
    assert(s1.grid == sc.grid.update(
        24,
        sc.grid[24].update(0, ScreenChar { ascii_character: b0, color_code: s.color }),
    ));
    assert(sc.wf());
    assert(s1.wf());
    assert(s1.column == 1);
    assert(s1.grid[23] == s.grid[24]);
    assert(forall|r: int| 0 <= r < 23 ==> #[trigger] s1.grid[r] == s.grid[r + 1]);
    assert(s1.grid[24][0] == ScreenChar { ascii_character: b0, color_code: s.color });
    assert(forall|c: int| 1 <= c < 80 ==> s1.grid[24][c] == blank_char(s.color));
    lemma_write_fits_row(s1, bytes.drop_first());
    assert(spec_write_string(s, bytes) == spec_write_string(s1, bytes.drop_first()));
    let t = spec_write_string(s, bytes);
    assert(forall|c: int|
        0 <= c < bytes.len() ==> t.grid[24][c] == (ScreenChar {
            ascii_character: bytes[c],
            color_code: s.color,
        }));
}

/// After a whole number of full rows of printable bytes from the start of
/// a row, the column sits at the row width and the bottom row holds the
/// last eighty of them.
proof fn lemma_write_full_chunks(s: ScreenState, bytes: Seq<u8>, k: int)
    requires
        s.wf(),
        s.column == 0,
        k >= 1,
        bytes.len() == 80 * k,
        forall|i: int| 0 <= i < bytes.len() ==> 0x20 <= #[trigger] bytes[i] <= 0x7e,
    ensures
        ({
            let t = spec_write_string(s, bytes);
            &&& t.wf()
            &&& t.color == s.color
            &&& t.column == 80
            &&& forall|c: int|
                0 <= c < 80 ==> t.grid[24][c] == (ScreenChar {
                    ascii_character: bytes[80 * (k - 1) + c],
                    color_code: s.color,
                })
        }),
    decreases k,
{
    if k == 1 {
        lemma_write_fits_row(s, bytes);
    } else {
        let head = bytes.take(80 * (k - 1));
        let tail = bytes.skip(80 * (k - 1));
        assert(bytes =~= head + tail);
        lemma_write_string_concat(s, head, tail);
        assert(forall|i: int| 0 <= i < head.len() ==> 0x20 <= #[trigger] head[i] <= 0x7e);
        assert(forall|i: int| 0 <= i < tail.len() ==> 0x20 <= #[trigger] tail[i] <= 0x7e);
        lemma_write_full_chunks(s, head, k - 1);
        let mid = spec_write_string(s, head);
        lemma_write_after_full_row(mid, tail);
        assert(forall|c: int| 0 <= c < 80 ==> tail[c] == bytes[80 * (k - 1) + c]);
    }
}

/// The grid after a printable run from the start of a row: one scroll per
/// eighty bytes, the bytes past the last scroll at the start of the bottom
/// row, the rest of that row blank if a scroll happened (undisturbed if
/// none did), and the row above holding the previous eighty bytes.
pub proof fn lemma_printable_run_lays_out_rows(s: ScreenState, bytes: Seq<u8>)
    requires
        s.wf(),
        s.column == 0,
        bytes.len() >= 1,
        forall|i: int| 0 <= i < bytes.len() ==> 0x20 <= #[trigger] bytes[i] <= 0x7e,
    ensures
        scroll_count(s, bytes) == (bytes.len() - 1) as int / 80,
        ({
            let t = spec_write_string(s, bytes);
            let k = (bytes.len() - 1) as int / 80;
            let m = bytes.len() - 80 * k;
            &&& t.wf()
            &&& t.color == s.color
            &&& t.column == m
            &&& forall|c: int|
                0 <= c < m ==> t.grid[24][c] == (ScreenChar {
                    ascii_character: bytes[80 * k + c],
                    color_code: s.color,
                })
            &&& k == 0 ==> forall|r: int| 0 <= r < 24 ==> #[trigger] t.grid[r] == s.grid[r]
            &&& k >= 1 ==> forall|c: int| m <= c < 80 ==> t.grid[24][c] == blank_char(s.color)
            &&& k >= 1 ==> forall|c: int|
                0 <= c < 80 ==> t.grid[23][c] == (ScreenChar {
                    ascii_character: bytes[80 * (k - 1) + c],
                    color_code: s.color,
                })
        }),
{
    lemma_one_scroll_per_eighty(s, bytes);
    let n = bytes.len() as int;
    let k = (n - 1) / 80;
    vstd::arithmetic::div_mod::lemma_fundamental_div_mod(n - 1, 80);
    vstd::arithmetic::div_mod::lemma_mod_bound(n - 1, 80);
    assert(80 * k <= n - 1 < 80 * k + 80);
    let m = n - 80 * k;
    if k == 0 {
        lemma_write_fits_row(s, bytes);
    } else {
        let head = bytes.take(80 * k);
        let tail = bytes.skip(80 * k);
        assert(bytes =~= head + tail);
        lemma_write_string_concat(s, head, tail);
        assert(forall|i: int| 0 <= i < head.len() ==> 0x20 <= #[trigger] head[i] <= 0x7e);
        assert(forall|i: int| 0 <= i < tail.len() ==> 0x20 <= #[trigger] tail[i] <= 0x7e);
        lemma_write_full_chunks(s, head, k);
        let mid = spec_write_string(s, head);
        lemma_write_after_full_row(mid, tail);
        assert(forall|c: int| 0 <= c < m ==> tail[c] == bytes[80 * k + c]);
        let t = spec_write_string(s, bytes);
        assert forall|c: int| 0 <= c < 80 implies t.grid[23][c] == (ScreenChar {
            ascii_character: bytes[80 * (k - 1) + c],
            color_code: s.color,
        }) by {
            assert(t.grid[23] == mid.grid[24]);
            let j = 80 * (k - 1) + c;
            assert(head[j] == bytes[j]);
        }
    }
}

/// A byte that is neither printable ASCII nor a newline lands on the grid
/// as the placeholder glyph, never as itself.
pub proof fn lemma_non_ascii_renders_placeholder(s: ScreenState, byte: u8)
    requires
        s.wf(),
        !(0x20 <= byte <= 0x7e),
        byte != 0x0a,
    ensures
        ({
            let t = spec_write_string(s, seq![byte]);
            let col: int = if s.column >= 80 {
                0
            } else {
                s.column as int
            };
            &&& t.grid[24][col].ascii_character == PLACEHOLDER_GLYPH
            &&& t.grid[24][col].ascii_character != byte
        }),
{
    let b2 = seq![byte];
    assert(b2.len() == 1 && b2[0] == byte);
    assert(visible_byte(byte) == PLACEHOLDER_GLYPH);
    assert(b2.drop_first() =~= Seq::<u8>::empty());
    let glyph = ScreenChar { ascii_character: PLACEHOLDER_GLYPH, color_code: s.color };
    let t = spec_write_byte(s, PLACEHOLDER_GLYPH);
    assert(spec_write_string(t, Seq::<u8>::empty()) == t);
    assert(spec_write_string(s, b2) == t);
    let u = if s.column >= 80 {
        spec_scroll(s)
    } else {
        s
    };
    let col: int = u.column as int;
    assert(u.grid.len() == 25);
    assert(u.grid[24].len() == 80);
    assert(t.grid[24] == u.grid[24].update(col, glyph));
    assert(t.grid[24][col] == glyph);
}

/// Writing bytes never changes the active color attribute.
pub proof fn lemma_write_string_keeps_color(s: ScreenState, bytes: Seq<u8>)
    ensures
        spec_write_string(s, bytes).color == s.color,
    decreases bytes.len(),
{
    if bytes.len() > 0 {
        lemma_write_string_keeps_color(spec_write_byte(s, visible_byte(bytes[0])), bytes.drop_first());
    }
}

/// Writing the bytes `b` and then one more byte `x` is the same as writing
/// the sequence `b.push(x)`.
pub proof fn lemma_write_string_snoc(s: ScreenState, b: Seq<u8>, x: u8)
    ensures
        spec_write_string(s, b.push(x)) == spec_write_byte(spec_write_string(s, b), visible_byte(x)),
    decreases b.len(),
{
    if b.len() == 0 {
        assert(b.push(x).drop_first() =~= Seq::<u8>::empty());
        assert(spec_write_string(s, b.push(x))
            == spec_write_string(spec_write_byte(s, visible_byte(x)), Seq::<u8>::empty()));
    } else {
        assert(b.push(x)[0] == b[0]);
        assert(b.push(x).drop_first() =~= b.drop_first().push(x));
        lemma_write_string_snoc(spec_write_byte(s, visible_byte(b[0])), b.drop_first(), x);
    }
}

} // verus!
