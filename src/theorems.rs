use vstd::prelude::*;
use crate::io::{
    cell_index, frame_byte, frame_of, text_cell, Screen, ScreenCharacter, CELLS, FRAME_BYTES,
    HEIGHT, WIDTH,
};

verus! {

/// The bytes that cursor-relative text leaves in the cells: each character
/// truncated to a byte.
pub open spec fn bytes_of(text: Seq<char>) -> Seq<u8> {
    Seq::new(text.len(), |i: int| text[i] as u8)
}

/// The text holds no line terminator.
pub open spec fn single_line(text: Seq<char>) -> bool {
    forall|i: int| 0 <= i < text.len() ==> text[i] != '\n'
}

/// Cursor-relative writes compose: writing `a` and then `b` leaves the same
/// screen as writing `a + b` in one call.
pub proof fn lemma_write_chars_append(s: Screen, a: Seq<char>, b: Seq<char>)
    ensures
        s.write_chars(a + b) == s.write_chars(a).write_chars(b),
    decreases b.len(),
{
    if b.len() == 0 {
        assert(a + b =~= a);
    } else {
        assert((a + b).drop_last() =~= a + b.drop_last());
        assert((a + b).last() == b.last());
        lemma_write_chars_append(s, a, b.drop_last());
    }
}

/// Every cursor-relative write keeps the screen valid: the cursor never
/// leaves the grid.
pub proof fn lemma_write_chars_valid(s: Screen, text: Seq<char>)
    requires
        s.valid(),
    ensures
        s.write_chars(text).valid(),
    decreases text.len(),
{
    if text.len() > 0 {
        lemma_write_chars_valid(s, text.drop_last());
    }
}

/// From the last row, the next line starts over at row 0: after a newline,
/// and after a character written in the last cell of the grid.
pub proof fn lemma_last_row_wraps(s: Screen, ch: char)
    requires
        s.valid(),
        s.row == HEIGHT - 1,
    ensures
        s.step('\n').row == 0,
        s.step('\n').column_offset == 0,
        s.column_offset == 2 * WIDTH - 2 ==> s.step(ch).row == 0 && s.step(ch).column_offset == 0,
{
}

/// Single-line text that stays short of the row's end lands in consecutive
/// cells from the cursor on, and moves the cursor past it in the same row.
pub proof fn lemma_write_chars_in_row(s: Screen, text: Seq<char>)
    requires
        s.valid(),
        single_line(text),
        s.column_offset / 2 + text.len() < WIDTH,
    ensures
        s.write_chars(text) == (Screen {
            column_offset: s.column_offset + 2 * text.len(),
            ..s.write_at(bytes_of(text), s.column_offset / 2, s.row)
        }),
    decreases text.len(),
{
    let col = s.column_offset / 2;
    if text.len() == 0 {
        assert(bytes_of(text) == Seq::<u8>::empty());
        s.lemma_write_at_empty(col, s.row);
    } else {
        let init = text.drop_last();
        let x = text.last();
        lemma_write_chars_in_row(s, init);
        s.lemma_write_at_push(bytes_of(init), x as u8, col, s.row);
        assert(bytes_of(init).push(x as u8) =~= bytes_of(text));
    }
}

/// A full row of single-line text from the row's start fills exactly that
/// row and leaves the cursor at offset 0 of the next row; no other cell changes.
pub proof fn lemma_full_row(s: Screen, text: Seq<char>)
    requires
        s.valid(),
        s.column_offset == 0,
        single_line(text),
        text.len() == WIDTH,
    ensures
        s.write_chars(text) == (Screen {
            column_offset: 0,
            row: s.new_line().row,
            ..s.write_at(bytes_of(text), 0, s.row)
        }),
{
    let init = text.drop_last();
    let x = text.last();
    lemma_write_chars_in_row(s, init);
    s.lemma_write_at_push(bytes_of(init), x as u8, 0, s.row);
    assert(bytes_of(init).push(x as u8) =~= bytes_of(text));
}

/// The screen after writing the first `n` cells of `g`, in row-major order,
/// each at its own position.
pub open spec fn put_cells(s: Screen, g: Seq<ScreenCharacter>, n: nat) -> Screen
    decreases n,
{
    if n == 0 {
        s
    } else {
        put_cells(s, g, (n - 1) as nat).put_cell(
            (n - 1) % (WIDTH as int),
            (n - 1) / (WIDTH as int),
            g[n - 1],
        )
    }
}

proof fn lemma_put_cells_prefix(s: Screen, g: Seq<ScreenCharacter>, n: nat)
    requires
        s.valid(),
        s.mirrors,
        g.len() == CELLS,
        n <= CELLS,
    ensures
        put_cells(s, g, n).mirrors,
        put_cells(s, g, n).device.len() == FRAME_BYTES,
        forall|j: int|
            0 <= j < FRAME_BYTES ==> #[trigger] put_cells(s, g, n).device[j] == if j < 2 * n {
                frame_byte(g, j)
            } else {
                s.device[j]
            },
    decreases n,
{
    if n > 0 {
        let m = (n - 1) as int;
        lemma_put_cells_prefix(s, g, (n - 1) as nat);
        assert(cell_index(m % (WIDTH as int), m / (WIDTH as int)) == m);
        let p = put_cells(s, g, (n - 1) as nat);
        assert forall|j: int| 0 <= j < FRAME_BYTES implies #[trigger] put_cells(s, g, n).device[j]
            == if j < 2 * n {
            frame_byte(g, j)
        } else {
            s.device[j]
        } by {
            if j == 2 * m || j == 2 * m + 1 {
                assert(j / 2 == m);
            } else {
                assert(put_cells(s, g, n).device[j] == p.device[j]);
            }
        }
    }
}

/// The bulk path and the cell path reach the same device state: writing
/// every cell of a grid at its own position, with mirroring on, leaves on the
/// device exactly the flattened grid that a blit copies there.
pub proof fn lemma_blit_matches_cell_writes(s: Screen, g: Seq<ScreenCharacter>)
    requires
        s.valid(),
        s.mirrors,
        g.len() == CELLS,
    ensures
        put_cells(s, g, CELLS as nat).device == frame_of(g),
{
    lemma_put_cells_prefix(s, g, CELLS as nat);
    assert(put_cells(s, g, CELLS as nat).device =~= frame_of(g));
}

} // verus!
