//! Drawing character cells with the IBM437 8x8 font.
use vstd::prelude::*;

use crate::cell::CharCell;

verus! {

pub const FONT_WIDTH: usize = 8;

pub const FONT_HEIGHT: usize = 8;

/// Number of bytes in the 8x8 regular font sheet: 16 rows of 16 glyphs,
/// 8 pixel rows each, one byte per pixel row of a glyph.
pub const FONT_SHEET_LEN: usize = 2048;

/// The byte at `index` of `ibm437::IBM437_8X8_REGULAR_DATA`, the 8x8 regular
/// font sheet of the `ibm437` crate.
pub uninterp spec fn ibm437_regular_8x8_byte(index: int) -> u8;

/// Reads `ibm437::CHARS_PER_ROW`, the number of glyphs per row of the font
/// sheet; the crate defines it as 16.
#[verifier::external_body]
fn font_sheet_stride() -> (stride: usize)
    ensures
        stride == 16,
{
    ibm437::CHARS_PER_ROW
}

/// Reads byte `index` of `ibm437::IBM437_8X8_REGULAR_DATA`, a constant slice
/// of 2048 bytes in the crate; the contract names the byte and claims
/// nothing more of it.
#[verifier::external_body]
fn font_sheet_byte(index: usize) -> (b: u8)
    requires
        index < FONT_SHEET_LEN,
    ensures
        b == ibm437_regular_8x8_byte(index as int),
{
    ibm437::IBM437_8X8_REGULAR_DATA[index]
}

/// Index in the font sheet of pixel row `y` of `glyph`.
pub open spec fn glyph_sheet_index(glyph: u8, y: int) -> int {
    ((glyph / 16) * 8 + y) * 16 + glyph % 16
}

/// The eight pixel rows of `glyph` in the font sheet, top row first.
pub open spec fn glyph_rows(glyph: u8) -> Seq<u8> {
    Seq::new(8, |y: int| ibm437_regular_8x8_byte(glyph_sheet_index(glyph, y)))
}

/// The eight pixel rows `rows` as drawn: every bit flipped when `invert`.
pub open spec fn drawn_rows(rows: Seq<u8>, invert: bool) -> Seq<u8> {
    Seq::new(8, |y: int| if invert { !rows[y] } else { rows[y] })
}

/// The eight pixel rows of a cell as drawn: its glyph's rows of the font
/// sheet, inverted when the cell's invert attribute is set.
pub open spec fn cell_rows(cell: CharCell) -> Seq<u8> {
    drawn_rows(glyph_rows(cell.glyph), cell.attrs.spec_contains_invert())
}

/// Pixel row `y` of a cell as drawn is byte `((g / 16) * 8 + y) * 16 + g % 16`
/// of the font sheet for glyph `g`, with every bit flipped exactly when bit
/// 0 of the cell's attribute byte is set.
pub proof fn lemma_cell_rows(cell: CharCell)
    ensures
        cell_rows(cell).len() == 8,
        forall|y: int|
            0 <= y < 8 ==> {
                let b = ibm437_regular_8x8_byte(
                    ((cell.glyph / 16) * 8 + y) * 16 + cell.glyph % 16,
                );
                #[trigger] cell_rows(cell)[y] == if cell.attrs.bits & crate::cell::ATTR_INVERT
                    != 0 {
                    !b
                } else {
                    b
                }
            },
{
    crate::cell::lemma_invert_is_bit0(cell.attrs);
}

/// Index in a frame buffer of `cb_cols` character columns (one byte per
/// eight pixels) of pixel row `y` of the cell at `col`, `row`.
pub open spec fn cell_fb_index(cb_cols: int, col: int, row: int, y: int) -> int {
    (row * 8 + y) * cb_cols + col
}

/// The frame buffer `fb` after the first `n` of the bytes `rows` have been
/// written, one after the other, as the pixel rows of the cell at column
/// `col` and character row `row`.
pub open spec fn draw_rows(
    fb: Seq<u8>,
    cb_cols: int,
    col: int,
    row: int,
    rows: Seq<u8>,
    n: nat,
) -> Seq<u8>
    decreases n,
{
    if n == 0 {
        fb
    } else {
        draw_rows(fb, cb_cols, col, row, rows, (n - 1) as nat).update(
            cell_fb_index(cb_cols, col, row, n - 1),
            rows[n - 1],
        )
    }
}

/// The frame buffer `fb` after the first `n` pixel rows of `cell` have been
/// drawn at column `col` and character row `row`.
pub open spec fn draw_cell_rows(
    fb: Seq<u8>,
    cb_cols: int,
    col: int,
    row: int,
    cell: CharCell,
    n: nat,
) -> Seq<u8> {
    draw_rows(fb, cb_cols, col, row, cell_rows(cell), n)
}

/// Whether every pixel row of the cell at `col`, `row` lies inside a frame
/// buffer of `len` bytes with `cb_cols` character columns.
pub open spec fn cell_fits(len: int, cb_cols: int, col: int, row: int) -> bool {
    &&& cb_cols * 8 <= usize::MAX
    &&& row * 8 + 7 <= usize::MAX
    &&& cell_fb_index(cb_cols, col, row, 7) < len
}

/// Drawing the rows of a cell changes the length of nothing.
pub proof fn lemma_draw_len(fb: Seq<u8>, cb_cols: int, col: int, row: int, rows: Seq<u8>, n: nat)
    requires
        n <= 8,
        cb_cols >= 0,
        col >= 0,
        row >= 0,
        cell_fb_index(cb_cols, col, row, 7) < fb.len(),
    ensures
        draw_rows(fb, cb_cols, col, row, rows, n).len() == fb.len(),
    decreases n,
{
    if n > 0 {
        lemma_draw_len(fb, cb_cols, col, row, rows, (n - 1) as nat);
        assert(cell_fb_index(cb_cols, col, row, n - 1) <= cell_fb_index(cb_cols, col, row, 7))
            by (nonlinear_arith)
            requires
                n <= 8,
                cb_cols >= 0,
        ;
    }
}

/// Pixel rows of a cell land on distinct bytes of a frame with columns.
proof fn lemma_cell_rows_distinct(cb_cols: int, col: int, row: int, y1: int, y2: int)
    requires
        cb_cols > 0,
        y1 < y2,
    ensures
        cell_fb_index(cb_cols, col, row, y1) < cell_fb_index(cb_cols, col, row, y2),
{
    assert((row * 8 + y1) * cb_cols < (row * 8 + y2) * cb_cols) by (nonlinear_arith)
        requires
            cb_cols > 0,
            y1 < y2,
    ;
}

/// Every pixel row of a cell with at most eight rows lies at or before the
/// eighth, and not before the start of the frame.
proof fn lemma_cell_index_bounds(cb_cols: int, col: int, row: int, y: int)
    requires
        cb_cols >= 0,
        col >= 0,
        row >= 0,
        0 <= y < 8,
    ensures
        0 <= cell_fb_index(cb_cols, col, row, y) <= cell_fb_index(cb_cols, col, row, 7),
{
    assert(0 <= (row * 8 + y) * cb_cols <= (row * 8 + 7) * cb_cols) by (nonlinear_arith)
        requires
            cb_cols >= 0,
            row >= 0,
            0 <= y < 8,
    ;
}

/// The first `n` rows are drawn: each lands at its index, and every other
/// byte keeps its value.
proof fn lemma_draw_rows_prefix(
    fb: Seq<u8>,
    cb_cols: int,
    col: int,
    row: int,
    rows: Seq<u8>,
    n: nat,
)
    requires
        n <= 8,
        cb_cols > 0,
        col >= 0,
        row >= 0,
        cell_fb_index(cb_cols, col, row, 7) < fb.len(),
    ensures
        draw_rows(fb, cb_cols, col, row, rows, n).len() == fb.len(),
        forall|y: int|
            0 <= y < n ==> #[trigger] draw_rows(fb, cb_cols, col, row, rows, n)[cell_fb_index(
                cb_cols,
                col,
                row,
                y,
            )] == rows[y],
        forall|i: int|
            0 <= i < fb.len() && (forall|y: int|
                0 <= y < n ==> i != #[trigger] cell_fb_index(cb_cols, col, row, y)) ==> #[trigger] draw_rows(
                fb,
                cb_cols,
                col,
                row,
                rows,
                n,
            )[i] == fb[i],
    decreases n,
{
    lemma_draw_len(fb, cb_cols, col, row, rows, n);
    if n > 0 {
        lemma_draw_rows_prefix(fb, cb_cols, col, row, rows, (n - 1) as nat);
        let prev = draw_rows(fb, cb_cols, col, row, rows, (n - 1) as nat);
        let cur = draw_rows(fb, cb_cols, col, row, rows, n);
        let last = cell_fb_index(cb_cols, col, row, n - 1);
        lemma_cell_index_bounds(cb_cols, col, row, n - 1);
        assert(cur == prev.update(last, rows[n - 1]));
        assert forall|y: int| 0 <= y < n implies #[trigger] cur[cell_fb_index(
            cb_cols,
            col,
            row,
            y,
        )] == rows[y] by {
            lemma_cell_index_bounds(cb_cols, col, row, y);
            if y < n - 1 {
                lemma_cell_rows_distinct(cb_cols, col, row, y, n - 1);
                assert(prev[cell_fb_index(cb_cols, col, row, y)] == rows[y]);
            }
        }
        assert forall|i: int|
            0 <= i < fb.len() && (forall|y: int|
                0 <= y < n ==> i != #[trigger] cell_fb_index(cb_cols, col, row, y)) implies #[trigger] cur[i]
            == fb[i] by {
            assert(i != cell_fb_index(cb_cols, col, row, n - 1));
            assert forall|y: int| 0 <= y < n - 1 implies i != #[trigger] cell_fb_index(
                cb_cols,
                col,
                row,
                y,
            ) by {
                assert(0 <= y < n);
            }
            assert(prev[i] == fb[i]);
        }
    }
}

/// Drawing a cell into a frame with at least one column writes each of its
/// eight pixel rows at its own index and leaves every other byte as it was.
pub proof fn lemma_draw_cell(fb: Seq<u8>, cb_cols: int, col: int, row: int, cell: CharCell)
    requires
        cb_cols > 0,
        col >= 0,
        row >= 0,
        cell_fb_index(cb_cols, col, row, 7) < fb.len(),
    ensures
        draw_cell_rows(fb, cb_cols, col, row, cell, 8).len() == fb.len(),
        forall|y: int|
            0 <= y < 8 ==> #[trigger] draw_cell_rows(fb, cb_cols, col, row, cell, 8)[cell_fb_index(
                cb_cols,
                col,
                row,
                y,
            )] == cell_rows(cell)[y],
        forall|i: int|
            0 <= i < fb.len() && (forall|y: int|
                0 <= y < 8 ==> i != #[trigger] cell_fb_index(cb_cols, col, row, y)) ==> #[trigger] draw_cell_rows(
                fb,
                cb_cols,
                col,
                row,
                cell,
                8,
            )[i] == fb[i],
{
    lemma_draw_rows_prefix(fb, cb_cols, col, row, cell_rows(cell), 8);
}

/// In a frame with no columns every pixel row lands on the same byte, so
/// only the last row drawn remains.
proof fn lemma_draw_rows_no_columns(fb: Seq<u8>, col: int, row: int, rows: Seq<u8>, n: nat)
    requires
        1 <= n <= 8,
        0 <= col < fb.len(),
    ensures
        draw_rows(fb, 0, col, row, rows, n) == fb.update(col, rows[n - 1]),
    decreases n,
{
    assert(cell_fb_index(0, col, row, n - 1) == col) by (nonlinear_arith);
    let prev = draw_rows(fb, 0, col, row, rows, (n - 1) as nat);
    assert(draw_rows(fb, 0, col, row, rows, n) == prev.update(col, rows[n - 1]));
    if n > 1 {
        lemma_draw_rows_no_columns(fb, col, row, rows, (n - 1) as nat);
        assert(fb.update(col, rows[n - 2]).update(col, rows[n - 1]) =~= fb.update(col, rows[n - 1]));
    } else {
        assert(prev == fb);
    }
}

/// Drawing a cell twice leaves the frame as drawing it once: the bytes
/// written do not depend on what the frame held.
pub proof fn lemma_draw_cell_idempotent(fb: Seq<u8>, cb_cols: int, col: int, row: int, cell: CharCell)
    requires
        cb_cols >= 0,
        col >= 0,
        row >= 0,
        cell_fb_index(cb_cols, col, row, 7) < fb.len(),
    ensures
        draw_cell_rows(draw_cell_rows(fb, cb_cols, col, row, cell, 8), cb_cols, col, row, cell, 8)
            == draw_cell_rows(fb, cb_cols, col, row, cell, 8),
{
    let rows = cell_rows(cell);
    let once = draw_cell_rows(fb, cb_cols, col, row, cell, 8);
    let twice = draw_cell_rows(once, cb_cols, col, row, cell, 8);
    if cb_cols == 0 {
        assert(cell_fb_index(0, col, row, 7) == col) by (nonlinear_arith);
        lemma_draw_rows_no_columns(fb, col, row, rows, 8);
        lemma_draw_rows_no_columns(once, col, row, rows, 8);
        assert(once.update(col, rows[7]) =~= once);
    } else {
        lemma_draw_rows_prefix(fb, cb_cols, col, row, rows, 8);
        lemma_draw_rows_prefix(once, cb_cols, col, row, rows, 8);
        assert forall|i: int| 0 <= i < fb.len() implies twice[i] == once[i] by {
            if exists|y: int| 0 <= y < 8 && i == cell_fb_index(cb_cols, col, row, y) {
                let y = choose|y: int| 0 <= y < 8 && i == cell_fb_index(cb_cols, col, row, y);
                assert(twice[cell_fb_index(cb_cols, col, row, y)] == rows[y]);
                assert(once[cell_fb_index(cb_cols, col, row, y)] == rows[y]);
            }
        }
        assert(twice =~= once);
    }
}

/// Draw the eight pixel rows `rows` of a cell, inverted when `invert`, at
/// column `col` and character row `row` of a frame buffer of `cb_cols`
/// character columns.
pub fn draw_glyph_rows(
    fb: &mut [u8],
    cb_cols: usize,
    col: usize,
    row: usize,
    rows: [u8; 8],
    invert: bool,
)
    requires
        cell_fits(old(fb)@.len() as int, cb_cols as int, col as int, row as int),
    ensures
        final(fb)@ == draw_rows(
            old(fb)@,
            cb_cols as int,
            col as int,
            row as int,
            drawn_rows(rows@, invert),
            8,
        ),
{
    let fb_stride: usize = (cb_cols * FONT_WIDTH) / 8;
    assert(fb_stride == cb_cols);
    for y in 0..FONT_HEIGHT
        invariant
            fb_stride == cb_cols,
            cell_fits(old(fb)@.len() as int, cb_cols as int, col as int, row as int),
            fb@.len() == old(fb)@.len(),
            fb@ == draw_rows(
                old(fb)@,
                cb_cols as int,
                col as int,
                row as int,
                drawn_rows(rows@, invert),
                y as nat,
            ),
    {
        let byte = if invert {
            !rows[y]
        } else {
            rows[y]
        };
        assert((row * 8 + y) * cb_cols <= (row * 8 + 7) * cb_cols) by (nonlinear_arith)
            requires
                y < 8,
        ;
        let fb_len = fb.len();
        assert(cell_fb_index(cb_cols as int, col as int, row as int, 7) < fb_len);
        let fb_index = (row * FONT_HEIGHT + y) * fb_stride + col;
        fb[fb_index] = byte;
    }
}

/// Render a single character cell onto a pixel frame-buffer.
pub fn render_char_cell(fb: &mut [u8], cb_cols: usize, col: usize, row: usize, cell: &CharCell)
    requires
        cell_fits(old(fb)@.len() as int, cb_cols as int, col as int, row as int),
    ensures
        final(fb)@ == draw_cell_rows(old(fb)@, cb_cols as int, col as int, row as int, *cell, 8),
{
    let sheet_stride = font_sheet_stride();
    let offset = cell.glyph as usize;
    let glyph_col = offset % sheet_stride;
    let glyph_row = offset / sheet_stride;
    let mut rows: [u8; 8] = [0u8; 8];
    for y in 0..FONT_HEIGHT
        invariant
            sheet_stride == 16,
            glyph_col == cell.glyph % 16,
            glyph_row == cell.glyph / 16,
            forall|j: int| 0 <= j < y ==> rows@[j] == glyph_rows(cell.glyph)[j],
    {
        let sheet_index = (glyph_row * FONT_WIDTH + y) * sheet_stride + glyph_col;
        rows[y] = font_sheet_byte(sheet_index);
    }
    let invert = cell.attrs.contains_invert();
    draw_glyph_rows(fb, cb_cols, col, row, rows, invert);
    assert(drawn_rows(rows@, invert) =~= cell_rows(*cell));
}

} // verus!
