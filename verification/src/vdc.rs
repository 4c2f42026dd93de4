//! The display controller: its pixel and character buffers, its display
//! mode, and what it does with each control packet.
use vstd::prelude::*;

use crate::cell::{blank_cell, CharAttrs, CharCell};
use crate::com::{ControlPacket, ControlPacketError, DisplayMode, DisplayModeResolution};
use crate::font::{
    cell_fb_index, cell_fits, cell_rows, draw_cell_rows, lemma_draw_cell, lemma_draw_len,
    render_char_cell, FONT_HEIGHT, FONT_WIDTH,
};

verus! {

pub const SCREEN_WIDTH: usize = 640;

pub const SCREEN_HEIGHT: usize = 480;

/// Bytes in one row of the pixel buffer (one bit per pixel).
pub const PIXEL_ROW_SIZE: usize = SCREEN_WIDTH / 8;

/// Cells in one row of the character buffer.
pub const CHAR_ROW_SIZE: usize = SCREEN_WIDTH / FONT_WIDTH;

/// Bytes in the pixel buffer.
pub const PIXEL_BUFFER_LEN: usize = PIXEL_ROW_SIZE * SCREEN_HEIGHT;

/// Cells in the character buffer.
#[verifier::nonlinear]
pub const CHAR_BUFFER_LEN: usize = (SCREEN_WIDTH / FONT_WIDTH) * (SCREEN_HEIGHT / FONT_HEIGHT);

/// What the controller must do on the bus after a control packet.
#[derive(Debug, Clone, Copy, PartialEq, Eq)]
pub enum Action {
    /// Nothing more: the packet has been carried out.
    Idle,
    /// Send a control packet, given by its two wire bytes.
    SendPacket(u8, u8),
    /// Send pixel row `row` (see [`Vdc::pixel_row`]).
    SendPixelRow(usize),
    /// Read a pixel row from the bus and store it as row `row`
    /// (see [`Vdc::store_pixel_row`]).
    ReceivePixelRow(usize),
    /// Send character row `row` (see [`Vdc::char_row`]).
    SendCharRow(usize),
    /// Read a character row from the bus and store it as row `row`
    /// (see [`Vdc::store_char_row`]).
    ReceiveCharRow(usize),
}

/// Why the controller cannot carry out a control packet.
#[derive(Debug, PartialEq, Eq)]
pub enum VdcError {
    /// The packet's bytes do not decode.
    Packet(ControlPacketError),
    /// The packet names a row past the end of its buffer.
    RowOutOfRange,
}

/// The state of the controller as a mathematical value.
pub struct VdcView {
    pub pixels: Seq<u8>,
    pub chars: Seq<CharCell>,
    pub mode: DisplayMode,
}

/// The mode the controller starts in and returns to on reset:
/// 640x480 with character cells enabled.
pub open spec fn initial_mode() -> DisplayMode {
    DisplayMode::from_view((DisplayModeResolution::R640x480, true))
}

/// Both buffers cleared, in mode `mode`.
pub open spec fn cleared(mode: DisplayMode) -> VdcView {
    VdcView {
        pixels: Seq::new(PIXEL_BUFFER_LEN as nat, |i: int| 0u8),
        chars: Seq::new(CHAR_BUFFER_LEN as nat, |i: int| blank_cell()),
        mode,
    }
}

/// `s` with the elements from `offset` on replaced by those of `data`.
pub open spec fn splice<A>(s: Seq<A>, offset: int, data: Seq<A>) -> Seq<A> {
    Seq::new(
        s.len(),
        |i: int|
            if offset <= i < offset + data.len() {
                data[i - offset]
            } else {
                s[i]
            },
    )
}

/// The pixel buffer `fb` after the first `n` of `cells` have been drawn, one
/// after the other, cell `c` at column `c` of character row `row`, in a
/// frame of `cb_cols` character columns.
pub open spec fn draw_cells(fb: Seq<u8>, cells: Seq<CharCell>, cb_cols: int, row: int, n: nat) -> Seq<
    u8,
>
    decreases n,
{
    if n == 0 {
        fb
    } else {
        draw_cell_rows(
            draw_cells(fb, cells, cb_cols, row, (n - 1) as nat),
            cb_cols,
            n - 1,
            row,
            cells[n - 1],
            8,
        )
    }
}

/// One step of the controller: a control packet carried out, or a row of
/// data read from the bus and stored.
pub enum Event {
    Packet(ControlPacket),
    PixelRow(usize, Seq<u8>),
    CharRow(usize, Seq<CharCell>),
}

impl VdcView {
    /// The buffers have their fixed sizes.
    pub open spec fn wf(self) -> bool {
        &&& self.pixels.len() == PIXEL_BUFFER_LEN
        &&& self.chars.len() == CHAR_BUFFER_LEN
    }

    /// Width and height in pixels of the current mode.
    pub open spec fn pixel_size(self) -> (usize, usize) {
        (self.mode@.0.spec_width(), self.mode@.0.spec_height())
    }

    /// Bytes per pixel row in the current mode.
    pub open spec fn pixel_row_size(self) -> int {
        (self.mode@.0.spec_width() / 8) as int
    }

    /// Columns and rows of character cells in the current mode.
    pub open spec fn char_size(self) -> (int, int) {
        ((self.mode@.0.spec_width() / 8) as int, (self.mode@.0.spec_height() / 8) as int)
    }

    /// Cells per character row in the current mode.
    pub open spec fn char_row_size(self) -> int {
        (self.mode@.0.spec_width() / 8) as int
    }

    /// Whether pixel row `row` lies inside the pixel buffer.
    pub open spec fn pixel_row_in_range(self, row: int) -> bool {
        row * self.pixel_row_size() + self.pixel_row_size() <= self.pixels.len()
    }

    /// Whether character row `row` lies inside the character buffer.
    pub open spec fn char_row_in_range(self, row: int) -> bool {
        row * self.char_row_size() + self.char_row_size() <= self.chars.len()
    }

    /// The bytes of pixel row `row`.
    pub open spec fn pixel_row(self, row: int) -> Seq<u8> {
        self.pixels.subrange(
            row * self.pixel_row_size(),
            row * self.pixel_row_size() + self.pixel_row_size(),
        )
    }

    /// The cells of character row `row`.
    pub open spec fn char_row(self, row: int) -> Seq<CharCell> {
        self.chars.subrange(
            row * self.char_row_size(),
            row * self.char_row_size() + self.char_row_size(),
        )
    }

    /// The state after a control packet has been carried out.
    pub open spec fn after(self, p: ControlPacket) -> VdcView {
        match p {
            ControlPacket::Reset => cleared(initial_mode()),
            ControlPacket::SetMode(m) => cleared(m),
            _ => self,
        }
    }

    /// What the controller answers to a control packet.
    pub open spec fn response(self, p: ControlPacket) -> Result<Action, VdcError> {
        match p {
            ControlPacket::Reset => Ok(Action::Idle),
            ControlPacket::SetMode(_) => Ok(Action::Idle),
            ControlPacket::GetMode => {
                let w = ControlPacket::SetMode(self.mode).wire();
                Ok(Action::SendPacket(w.0, w.1))
            },
            ControlPacket::ReadRowPixels(row) => if self.pixel_row_in_range(row as int) {
                Ok(Action::SendPixelRow(row as usize))
            } else {
                Err(VdcError::RowOutOfRange)
            },
            ControlPacket::WriteRowPixels(row) => if self.pixel_row_in_range(row as int) {
                Ok(Action::ReceivePixelRow(row as usize))
            } else {
                Err(VdcError::RowOutOfRange)
            },
            ControlPacket::ReadRowChars(row) => if self.char_row_in_range(row as int) {
                Ok(Action::SendCharRow(row as usize))
            } else {
                Err(VdcError::RowOutOfRange)
            },
            ControlPacket::WriteRowChars(row) => if self.char_row_in_range(row as int) {
                Ok(Action::ReceiveCharRow(row as usize))
            } else {
                Err(VdcError::RowOutOfRange)
            },
        }
    }

    /// The state after pixel row `row` has been overwritten with `data`.
    pub open spec fn with_pixel_row(self, row: int, data: Seq<u8>) -> VdcView {
        VdcView {
            pixels: splice(self.pixels, row * self.pixel_row_size(), data),
            ..self
        }
    }

    /// The state after character row `row` has been overwritten with
    /// `cells` and each cell `c` of them has been drawn, in order, at
    /// column `c` of character row `row` of the pixel buffer.
    pub open spec fn with_char_row(self, row: int, cells: Seq<CharCell>) -> VdcView {
        VdcView {
            pixels: draw_cells(self.pixels, cells, self.char_row_size(), row, cells.len()),
            chars: splice(self.chars, row * self.char_row_size(), cells),
            mode: self.mode,
        }
    }

    /// The state after one step.
    pub open spec fn apply(self, e: Event) -> VdcView {
        match e {
            Event::Packet(p) => self.after(p),
            Event::PixelRow(row, data) => if self.pixel_row_in_range(row as int) && data.len()
                == self.pixel_row_size() {
                self.with_pixel_row(row as int, data)
            } else {
                self
            },
            Event::CharRow(row, cells) => if self.char_row_in_range(row as int) && cells.len()
                == self.char_row_size() {
                self.with_char_row(row as int, cells)
            } else {
                self
            },
        }
    }

    /// The state after the steps `events`, first to last.
    pub open spec fn run(self, events: Seq<Event>) -> VdcView
        decreases events.len(),
    {
        if events.len() == 0 {
            self
        } else {
            self.run(events.drop_last()).apply(events.last())
        }
    }
}

/// Whether `e` resets the controller or sets its mode.
pub open spec fn changes_mode(e: Event) -> bool {
    e matches Event::Packet(p) && (p is Reset || p is SetMode)
}

/// Rows are 80, 40 or 20 bytes (and as many cells) long, by mode.
pub proof fn lemma_row_sizes(v: VdcView)
    ensures
        v.pixel_row_size() == v.char_row_size(),
        v.pixel_row_size() == 80 || v.pixel_row_size() == 40 || v.pixel_row_size() == 20,
{
}

/// Row `row` of `size` lies inside a buffer of `len` exactly when it ends
/// by `len`; two rows that do meet only when they are the same.
proof fn lemma_rows_disjoint(row: int, other: int, size: int)
    requires
        0 <= row,
        0 <= other,
        row != other,
        size > 0,
    ensures
        other * size + size <= row * size || row * size + size <= other * size,
{
    if other < row {
        assert(other * size + size <= row * size) by (nonlinear_arith)
            requires
                other < row,
                size > 0,
        ;
    } else {
        assert(row * size + size <= other * size) by (nonlinear_arith)
            requires
                row < other,
                size > 0,
        ;
    }
}

/// A cell of a character row that fits in the character buffer also fits in
/// the pixel buffer.
pub proof fn lemma_char_row_cell_fits(row: int, size: int, col: int)
    requires
        0 <= row,
        size == 80 || size == 40 || size == 20,
        row * size + size <= CHAR_BUFFER_LEN,
        0 <= col < size,
    ensures
        cell_fits(PIXEL_BUFFER_LEN as int, size, col, row),
        cell_fb_index(size, col, row, 7) < (row * 8 + 8) * size,
        (row * 8 + 8) * size <= PIXEL_BUFFER_LEN,
{
    assert((row * 8 + 8) * size == 8 * (row * size + size)) by (nonlinear_arith);
    assert(cell_fb_index(size, col, row, 7) < (row * 8 + 8) * size) by (nonlinear_arith)
        requires
            col < size,
    ;
}

/// Drawing cells of a character row keeps the pixel buffer's size.
pub proof fn lemma_draw_cells_len(fb: Seq<u8>, cells: Seq<CharCell>, size: int, row: int, n: nat)
    requires
        fb.len() == PIXEL_BUFFER_LEN,
        0 <= row,
        size == 80 || size == 40 || size == 20,
        row * size + size <= CHAR_BUFFER_LEN,
        n <= size,
    ensures
        draw_cells(fb, cells, size, row, n).len() == fb.len(),
    decreases n,
{
    if n > 0 {
        lemma_draw_cells_len(fb, cells, size, row, (n - 1) as nat);
        lemma_char_row_cell_fits(row, size, n - 1);
        lemma_draw_len(
            draw_cells(fb, cells, size, row, (n - 1) as nat),
            size,
            n - 1,
            row,
            cell_rows(cells[n - 1]),
            8,
        );
    }
}

/// Pixel row `y` of the cell at column `c` and pixel row `y2` of the cell at
/// column `c2` of one character row land on the same byte only when they
/// are the same row of the same cell.
proof fn lemma_cell_index_unique(size: int, row: int, c: int, y: int, c2: int, y2: int)
    requires
        size > 0,
        0 <= c < size,
        0 <= c2 < size,
        0 <= y,
        0 <= y2,
        cell_fb_index(size, c, row, y) == cell_fb_index(size, c2, row, y2),
    ensures
        c == c2,
        y == y2,
{
    if y < y2 {
        assert((row * 8 + y) * size + size <= (row * 8 + y2) * size) by (nonlinear_arith)
            requires
                y < y2,
                size > 0,
        ;
    } else if y2 < y {
        assert((row * 8 + y2) * size + size <= (row * 8 + y) * size) by (nonlinear_arith)
            requires
                y2 < y,
                size > 0,
        ;
    }
}

/// After the first `n` cells of a character row are drawn, pixel row `y` of
/// cell `c` holds that cell's row `y`, for every `c < n`, and every byte
/// that is no pixel row of those cells keeps its value.
pub proof fn lemma_draw_cells(fb: Seq<u8>, cells: Seq<CharCell>, size: int, row: int, n: nat)
    requires
        fb.len() == PIXEL_BUFFER_LEN,
        0 <= row,
        size == 80 || size == 40 || size == 20,
        row * size + size <= CHAR_BUFFER_LEN,
        n <= size,
    ensures
        forall|c: int, y: int|
            0 <= c < n && 0 <= y < 8 ==> #[trigger] draw_cells(fb, cells, size, row, n)[cell_fb_index(
                size,
                c,
                row,
                y,
            )] == cell_rows(cells[c])[y],
        forall|i: int|
            0 <= i < fb.len() && !(exists|c: int, y: int|
                0 <= c < n && 0 <= y < 8 && i == #[trigger] cell_fb_index(size, c, row, y))
                ==> #[trigger] draw_cells(fb, cells, size, row, n)[i] == fb[i],
    decreases n,
{
    if n > 0 {
        let m = (n - 1) as nat;
        lemma_draw_cells(fb, cells, size, row, m);
        lemma_draw_cells_len(fb, cells, size, row, m);
        lemma_char_row_cell_fits(row, size, n - 1);
        let prev = draw_cells(fb, cells, size, row, m);
        let cur = draw_cells(fb, cells, size, row, n);
        lemma_draw_cell(prev, size, n - 1, row, cells[n - 1]);
        assert forall|c: int, y: int| 0 <= c < n && 0 <= y < 8 implies #[trigger] cur[cell_fb_index(
            size,
            c,
            row,
            y,
        )] == cell_rows(cells[c])[y] by {
            if c < n - 1 {
                lemma_char_row_cell_fits(row, size, c);
                crate::font::lemma_draw_cell(fb, size, c, row, cells[c]);
                assert forall|y2: int| 0 <= y2 < 8 implies cell_fb_index(size, c, row, y)
                    != #[trigger] cell_fb_index(size, n - 1, row, y2) by {
                    if cell_fb_index(size, c, row, y) == cell_fb_index(size, n - 1, row, y2) {
                        lemma_cell_index_unique(size, row, c, y, n - 1, y2);
                    }
                }
                assert(0 <= cell_fb_index(size, c, row, y) < fb.len()) by (nonlinear_arith)
                    requires
                        0 <= c,
                        0 <= y < 8,
                        0 <= row,
                        size > 0,
                        cell_fb_index(size, c, row, 7) < fb.len(),
                ;
                assert(prev[cell_fb_index(size, c, row, y)] == cell_rows(cells[c])[y]);
            }
        }
        assert forall|i: int|
            0 <= i < fb.len() && !(exists|c: int, y: int|
                0 <= c < n && 0 <= y < 8 && i == #[trigger] cell_fb_index(size, c, row, y))
                implies #[trigger] cur[i] == fb[i] by {
            assert forall|y: int| 0 <= y < 8 implies i != #[trigger] cell_fb_index(
                size,
                n - 1,
                row,
                y,
            ) by {
                if i == cell_fb_index(size, n - 1, row, y) {
                    assert(0 <= n - 1 < n && 0 <= y < 8 && i == cell_fb_index(size, n - 1, row, y));
                }
            }
            assert(!(exists|c: int, y: int|
                0 <= c < m && 0 <= y < 8 && i == #[trigger] cell_fb_index(size, c, row, y)));
            assert(prev[i] == fb[i]);
        }
    }
}

/// What a set-mode packet sets, a get-mode packet that follows answers:
/// the reply decodes to a set-mode packet of the same mode.
pub proof fn lemma_set_mode_then_get_mode(v: VdcView, m: DisplayMode)
    ensures
        v.after(ControlPacket::SetMode(m)).response(ControlPacket::GetMode) matches Ok(
            Action::SendPacket(b0, b1),
        ) && ControlPacket::decode(b0, b1) == Ok::<_, ControlPacketError>(ControlPacket::SetMode(m)),
{
    crate::com::lemma_mode_roundtrip(m);
    crate::com::lemma_packet_roundtrip(ControlPacket::SetMode(m));
}

/// Steps that neither reset nor set the mode keep the mode and the buffers'
/// sizes.
pub proof fn lemma_run_keeps_mode(v: VdcView, events: Seq<Event>)
    requires
        forall|i: int| 0 <= i < events.len() ==> !changes_mode(#[trigger] events[i]),
    ensures
        v.run(events).mode == v.mode,
        v.wf() ==> v.run(events).wf(),
    decreases events.len(),
{
    if events.len() > 0 {
        let rest = events.drop_last();
        assert forall|i: int| 0 <= i < rest.len() implies !changes_mode(#[trigger] rest[i]) by {
            assert(rest[i] == events[i]);
        }
        lemma_run_keeps_mode(v, rest);
        let w = v.run(rest);
        assert(!changes_mode(events[events.len() - 1]));
        if w.wf() {
            lemma_row_sizes(w);
            match events.last() {
                Event::CharRow(row, cells) => {
                    if w.char_row_in_range(row as int) && cells.len() == w.char_row_size() {
                        lemma_draw_cells_len(
                            w.pixels,
                            cells,
                            w.char_row_size(),
                            row as int,
                            cells.len(),
                        );
                    }
                },
                _ => {},
            }
        }
    }
}

/// What a set-mode packet sets, a get-mode packet answers, whatever came in
/// between that neither reset nor set the mode.
pub proof fn lemma_set_mode_then_get_mode_later(v: VdcView, m: DisplayMode, events: Seq<Event>)
    requires
        forall|i: int| 0 <= i < events.len() ==> !changes_mode(#[trigger] events[i]),
    ensures
        v.after(ControlPacket::SetMode(m)).run(events).response(ControlPacket::GetMode) matches Ok(
            Action::SendPacket(b0, b1),
        ) && ControlPacket::decode(b0, b1) == Ok::<_, ControlPacketError>(ControlPacket::SetMode(m)),
{
    lemma_run_keeps_mode(v.after(ControlPacket::SetMode(m)), events);
    lemma_set_mode_then_get_mode(v, m);
}

/// A reset leaves every pixel zero, every cell blank, and the initial mode.
pub proof fn lemma_reset_clears(v: VdcView)
    ensures
        v.after(ControlPacket::Reset).wf(),
        forall|i: int|
            0 <= i < PIXEL_BUFFER_LEN ==> #[trigger] v.after(ControlPacket::Reset).pixels[i] == 0u8,
        forall|i: int|
            0 <= i < CHAR_BUFFER_LEN ==> #[trigger] v.after(ControlPacket::Reset).chars[i] == (
            CharCell { glyph: 0, attrs: CharAttrs { bits: 0 } }),
        v.after(ControlPacket::Reset).mode@ == (DisplayModeResolution::R640x480, true),
{
    DisplayMode::lemma_from_view((DisplayModeResolution::R640x480, true));
}

/// A set-mode packet leaves every pixel zero, every cell blank (glyph 0, no
/// attribute bits), and the mode it names.
pub proof fn lemma_set_mode_clears(v: VdcView, m: DisplayMode)
    ensures
        v.after(ControlPacket::SetMode(m)).wf(),
        forall|i: int|
            0 <= i < PIXEL_BUFFER_LEN ==> #[trigger] v.after(ControlPacket::SetMode(m)).pixels[i]
                == 0u8,
        forall|i: int|
            0 <= i < CHAR_BUFFER_LEN ==> #[trigger] v.after(ControlPacket::SetMode(m)).chars[i] == (
            CharCell { glyph: 0, attrs: CharAttrs { bits: 0 } }),
        v.after(ControlPacket::SetMode(m)).mode == m,
{
}

/// The character grid is the pixel size divided by the eight-by-eight
/// font cell, and a character row has as many cells as a pixel row has
/// bytes.
pub proof fn lemma_char_size(v: VdcView)
    ensures
        v.char_size().0 * 8 == v.pixel_size().0,
        v.char_size().1 * 8 == v.pixel_size().1,
        v.char_row_size() == v.char_size().0,
        v.pixel_row_size() * 8 == v.pixel_size().0,
{
}

/// A row is accepted exactly when it starts before the end of its buffer:
/// pixel rows below 38400 / (bytes per row), character rows below
/// 4800 / (cells per row); in 640x480 that is 480 pixel rows and 60
/// character rows.
pub proof fn lemma_row_ranges(v: VdcView, r: int)
    requires
        v.wf(),
        0 <= r,
    ensures
        v.pixel_row_in_range(r) <==> r < (PIXEL_BUFFER_LEN as int) / v.pixel_row_size(),
        v.char_row_in_range(r) <==> r < (CHAR_BUFFER_LEN as int) / v.char_row_size(),
        v.mode@.0 == DisplayModeResolution::R640x480 ==> (v.pixel_row_in_range(r) <==> r < 480)
            && (v.char_row_in_range(r) <==> r < 60),
{
    lemma_row_sizes(v);
    let n = v.pixel_row_size();
    if n == 80 {
        assert(r * 80 + 80 <= 38400 <==> r < 480);
        assert(r * 80 + 80 <= 4800 <==> r < 60);
    } else if n == 40 {
        assert(r * 40 + 40 <= 38400 <==> r < 960);
        assert(r * 40 + 40 <= 4800 <==> r < 120);
    } else {
        assert(r * 20 + 20 <= 38400 <==> r < 1920);
        assert(r * 20 + 20 <= 4800 <==> r < 240);
    }
}

/// Packets other than reset and set-mode change nothing.
pub proof fn lemma_queries_keep_state(v: VdcView, p: ControlPacket)
    requires
        !(p is Reset),
        !(p is SetMode),
    ensures
        v.after(p) == v,
{
}

/// A pixel row that has been written reads back as what was written, and
/// every other pixel row, the character buffer and the mode stay as they were.
pub proof fn lemma_pixel_row_write_read(v: VdcView, row: int, data: Seq<u8>, other: int)
    requires
        v.wf(),
        0 <= row,
        v.pixel_row_in_range(row),
        data.len() == v.pixel_row_size(),
    ensures
        v.with_pixel_row(row, data).wf(),
        v.with_pixel_row(row, data).pixel_row(row) == data,
        0 <= other && other != row && v.pixel_row_in_range(other) ==> v.with_pixel_row(
            row,
            data,
        ).pixel_row(other) == v.pixel_row(other),
        v.with_pixel_row(row, data).chars == v.chars,
        v.with_pixel_row(row, data).mode == v.mode,
{
    let w = v.with_pixel_row(row, data);
    let n = v.pixel_row_size();
    lemma_row_sizes(v);
    assert(w.pixel_row(row) =~= data);
    if 0 <= other && other != row && v.pixel_row_in_range(other) {
        lemma_rows_disjoint(row, other, n);
        assert(w.pixel_row(other) =~= v.pixel_row(other));
    }
}

/// A character row that has been written reads back as what was written,
/// every other character row and the mode stay as they were, and the pixel
/// buffer keeps its size.
pub proof fn lemma_char_row_write_read(v: VdcView, row: int, cells: Seq<CharCell>, other: int)
    requires
        v.wf(),
        0 <= row,
        v.char_row_in_range(row),
        cells.len() == v.char_row_size(),
    ensures
        v.with_char_row(row, cells).wf(),
        v.with_char_row(row, cells).char_row(row) == cells,
        0 <= other && other != row && v.char_row_in_range(other) ==> v.with_char_row(
            row,
            cells,
        ).char_row(other) == v.char_row(other),
        v.with_char_row(row, cells).mode == v.mode,
{
    let w = v.with_char_row(row, cells);
    let n = v.char_row_size();
    lemma_row_sizes(v);
    assert(w.char_row(row) =~= cells);
    if 0 <= other && other != row && v.char_row_in_range(other) {
        lemma_rows_disjoint(row, other, n);
        assert(w.char_row(other) =~= v.char_row(other));
    }
    lemma_draw_cells_len(v.pixels, cells, n, row, cells.len());
}

/// Writing a character row draws cell `c` of it at column `c` of that
/// character row: pixel row `y` of the cell lands at byte
/// `(row * 8 + y) * size + c` of the pixel buffer, where `size` is the
/// row length of the mode. Bytes outside the character row's eight pixel
/// rows keep their values.
pub proof fn lemma_char_row_drawn(v: VdcView, row: int, cells: Seq<CharCell>)
    requires
        v.wf(),
        0 <= row,
        v.char_row_in_range(row),
        cells.len() == v.char_row_size(),
    ensures
        forall|c: int, y: int|
            0 <= c < cells.len() && 0 <= y < 8 ==> #[trigger] v.with_char_row(row, cells).pixels[(
            row * 8 + y) * v.char_row_size() + c] == cell_rows(cells[c])[y],
        forall|i: int|
            0 <= i < PIXEL_BUFFER_LEN && (i < row * 8 * v.char_row_size() || (row * 8 + 8)
                * v.char_row_size() <= i) ==> #[trigger] v.with_char_row(row, cells).pixels[i]
                == v.pixels[i],
{
    let size = v.char_row_size();
    lemma_row_sizes(v);
    lemma_draw_cells(v.pixels, cells, size, row, cells.len());
    assert forall|c: int, y: int| 0 <= c < cells.len() && 0 <= y < 8 implies #[trigger] v.with_char_row(
        row,
        cells,
    ).pixels[(row * 8 + y) * size + c] == cell_rows(cells[c])[y] by {
        assert((row * 8 + y) * size + c == cell_fb_index(size, c, row, y));
    }
    assert forall|i: int|
        0 <= i < PIXEL_BUFFER_LEN && (i < row * 8 * size || (row * 8 + 8) * size <= i) implies #[trigger] v.with_char_row(
        row,
        cells,
    ).pixels[i] == v.pixels[i] by {
        assert forall|c: int, y: int| 0 <= c < cells.len() && 0 <= y < 8 implies i
            != #[trigger] cell_fb_index(size, c, row, y) by {
            lemma_char_row_cell_fits(row, size, c);
            assert(row * 8 * size <= cell_fb_index(size, c, row, y) <= cell_fb_index(size, c, row, 7))
                by (nonlinear_arith)
                requires
                    0 <= c,
                    0 <= y < 8,
                    0 <= row,
                    size > 0,
            ;
        }
    }
}

/// A written pixel row reads back as written, whatever came in between that
/// neither reset nor set the mode, wrote that pixel row again, or wrote a
/// character row (which draws into the pixel buffer).
pub proof fn lemma_pixel_row_write_read_later(
    v: VdcView,
    row: int,
    data: Seq<u8>,
    events: Seq<Event>,
)
    requires
        v.wf(),
        0 <= row,
        v.pixel_row_in_range(row),
        data.len() == v.pixel_row_size(),
        forall|i: int|
            0 <= i < events.len() ==> {
                let e = #[trigger] events[i];
                &&& !changes_mode(e)
                &&& !(e is CharRow)
                &&& !(e matches Event::PixelRow(r, _) && r == row)
            },
    ensures
        v.with_pixel_row(row, data).run(events).pixel_row(row) == data,
{
    lemma_pixel_row_write_read(v, row, data, row);
    lemma_pixel_row_kept(v.with_pixel_row(row, data), row, events);
}

/// Steps that neither reset nor set the mode, write pixel row `row`, nor
/// write a character row keep pixel row `row`.
proof fn lemma_pixel_row_kept(v: VdcView, row: int, events: Seq<Event>)
    requires
        v.wf(),
        0 <= row,
        v.pixel_row_in_range(row),
        forall|i: int|
            0 <= i < events.len() ==> {
                let e = #[trigger] events[i];
                &&& !changes_mode(e)
                &&& !(e is CharRow)
                &&& !(e matches Event::PixelRow(r, _) && r == row)
            },
    ensures
        v.run(events).pixel_row(row) == v.pixel_row(row),
        v.run(events).wf(),
        v.run(events).mode == v.mode,
    decreases events.len(),
{
    if events.len() > 0 {
        let rest = events.drop_last();
        assert forall|i: int| 0 <= i < rest.len() implies {
            let e = #[trigger] rest[i];
            &&& !changes_mode(e)
            &&& !(e is CharRow)
            &&& !(e matches Event::PixelRow(r, _) && r == row)
        } by {
            assert(rest[i] == events[i]);
        }
        lemma_pixel_row_kept(v, row, rest);
        let w = v.run(rest);
        let e = events[events.len() - 1];
        assert(!changes_mode(e) && !(e is CharRow) && !(e matches Event::PixelRow(r, _) && r == row));
        match e {
            Event::PixelRow(r, d) => {
                if w.pixel_row_in_range(r as int) && d.len() == w.pixel_row_size() {
                    lemma_pixel_row_write_read(w, r as int, d, row);
                }
            },
            _ => {},
        }
    }
}

/// A written character row reads back as written, whatever came in between
/// that neither reset nor set the mode nor wrote that character row again.
pub proof fn lemma_char_row_write_read_later(
    v: VdcView,
    row: int,
    cells: Seq<CharCell>,
    events: Seq<Event>,
)
    requires
        v.wf(),
        0 <= row,
        v.char_row_in_range(row),
        cells.len() == v.char_row_size(),
        forall|i: int|
            0 <= i < events.len() ==> {
                let e = #[trigger] events[i];
                &&& !changes_mode(e)
                &&& !(e matches Event::CharRow(r, _) && r == row)
            },
    ensures
        v.with_char_row(row, cells).run(events).char_row(row) == cells,
{
    lemma_char_row_write_read(v, row, cells, row);
    lemma_char_row_kept(v.with_char_row(row, cells), row, events);
}

/// Steps that neither reset nor set the mode nor write character row `row`
/// keep character row `row`.
proof fn lemma_char_row_kept(v: VdcView, row: int, events: Seq<Event>)
    requires
        v.wf(),
        0 <= row,
        v.char_row_in_range(row),
        forall|i: int|
            0 <= i < events.len() ==> {
                let e = #[trigger] events[i];
                &&& !changes_mode(e)
                &&& !(e matches Event::CharRow(r, _) && r == row)
            },
    ensures
        v.run(events).char_row(row) == v.char_row(row),
        v.run(events).wf(),
        v.run(events).mode == v.mode,
    decreases events.len(),
{
    if events.len() > 0 {
        let rest = events.drop_last();
        assert forall|i: int| 0 <= i < rest.len() implies {
            let e = #[trigger] rest[i];
            &&& !changes_mode(e)
            &&& !(e matches Event::CharRow(r, _) && r == row)
        } by {
            assert(rest[i] == events[i]);
        }
        lemma_char_row_kept(v, row, rest);
        let w = v.run(rest);
        let e = events[events.len() - 1];
        assert(!changes_mode(e) && !(e matches Event::CharRow(r, _) && r == row));
        match e {
            Event::PixelRow(r, d) => {
                if w.pixel_row_in_range(r as int) && d.len() == w.pixel_row_size() {
                    lemma_pixel_row_write_read(w, r as int, d, r as int);
                }
            },
            Event::CharRow(r, c) => {
                if w.char_row_in_range(r as int) && c.len() == w.char_row_size() {
                    lemma_char_row_write_read(w, r as int, c, row);
                }
            },
            _ => {},
        }
    }
}

/// The display controller.
pub struct Vdc {
    pixels: Vec<u8>,
    chars: Vec<CharCell>,
    mode: DisplayMode,
}

impl View for Vdc {
    type V = VdcView;

    closed spec fn view(&self) -> VdcView {
        VdcView { pixels: self.pixels@, chars: self.chars@, mode: self.mode }
    }
}

/// The pixels of the current mode as one frame, for drawing into directly.
pub struct FrameBuffer<'a> {
    pub data: &'a [u8],
    pub width: usize,
    pub height: usize,
    pub bits_per_pixel: usize,
}

impl Vdc {
    /// A controller in its initial state: both buffers cleared, in the
    /// initial mode.
    pub fn new() -> (vdc: Self)
        ensures
            vdc@ == cleared(initial_mode()),
            vdc@.wf(),
    {
        let mut pixels: Vec<u8> = Vec::new();
        let mut i: usize = 0;
        while i < PIXEL_BUFFER_LEN
            invariant
                i <= PIXEL_BUFFER_LEN,
                pixels@ == Seq::new(i as nat, |j: int| 0u8),
            decreases PIXEL_BUFFER_LEN - i,
        {
            pixels.push(0);
            i += 1;
        }
        let mut chars: Vec<CharCell> = Vec::new();
        let mut i: usize = 0;
        while i < CHAR_BUFFER_LEN
            invariant
                i <= CHAR_BUFFER_LEN,
                chars@ == Seq::new(i as nat, |j: int| blank_cell()),
            decreases CHAR_BUFFER_LEN - i,
        {
            chars.push(CharCell::blank());
            i += 1;
        }
        let mode = DisplayMode::new(DisplayModeResolution::R640x480, true);
        proof {
            DisplayMode::lemma_from_view((DisplayModeResolution::R640x480, true));
            DisplayMode::lemma_view_eq(mode, initial_mode());
        }
        Vdc { pixels, chars, mode }
    }

    /// Zero every pixel and blank every cell.
    fn clear_buffers(&mut self)
        requires
            old(self)@.wf(),
        ensures
            final(self)@ == cleared(old(self)@.mode),
    {
        let mut i: usize = 0;
        while i < self.pixels.len()
            invariant
                i <= self.pixels.len(),
                self.pixels.len() == PIXEL_BUFFER_LEN,
                self.chars.len() == CHAR_BUFFER_LEN,
                self.chars@ == old(self).chars@,
                self.mode == old(self).mode,
                forall|j: int| 0 <= j < i ==> self.pixels@[j] == 0u8,
            decreases self.pixels.len() - i,
        {
            self.pixels[i] = 0;
            i += 1;
        }
        let mut i: usize = 0;
        while i < self.chars.len()
            invariant
                i <= self.chars.len(),
                self.chars.len() == CHAR_BUFFER_LEN,
                self.pixels.len() == PIXEL_BUFFER_LEN,
                self.mode == old(self).mode,
                forall|j: int| 0 <= j < PIXEL_BUFFER_LEN ==> self.pixels@[j] == 0u8,
                forall|j: int| 0 <= j < i ==> self.chars@[j] == blank_cell(),
            decreases self.chars.len() - i,
        {
            self.chars[i] = CharCell::blank();
            i += 1;
        }
        assert(self.pixels@ =~= Seq::new(PIXEL_BUFFER_LEN as nat, |j: int| 0u8));
        assert(self.chars@ =~= Seq::new(CHAR_BUFFER_LEN as nat, |j: int| blank_cell()));
    }

    /// Width and height in pixels of the current mode.
    pub fn current_pixel_size(&self) -> (size: (usize, usize))
        ensures
            size == self@.pixel_size(),
    {
        let res = self.mode.resolution();
        (res.width(), res.height())
    }

    /// Bytes per pixel row in the current mode.
    pub fn current_pixel_row_size(&self) -> (n: usize)
        ensures
            n == self@.pixel_row_size(),
    {
        self.current_pixel_size().0 / 8
    }

    /// Columns and rows of character cells in the current mode.
    pub fn current_char_size(&self) -> (size: (usize, usize))
        ensures
            size.0 == self@.char_size().0,
            size.1 == self@.char_size().1,
            size.0 * 8 == self@.pixel_size().0,
            size.1 * 8 == self@.pixel_size().1,
    {
        let res = self.mode.resolution();
        (res.width() / FONT_WIDTH, res.height() / FONT_HEIGHT)
    }

    /// Cells per character row in the current mode.
    pub fn current_char_row_size(&self) -> (n: usize)
        ensures
            n == self@.char_row_size(),
    {
        self.current_pixel_size().0 / FONT_WIDTH
    }

    /// The current display mode.
    pub fn get_current_display_mode(&self) -> (mode: DisplayMode)
        ensures
            mode == self@.mode,
    {
        self.mode
    }

    /// Switch to display mode `mode`, leaving the buffers as they are.
    pub fn set_current_display_mode(&mut self, mode: DisplayMode)
        ensures
            final(self)@ == (VdcView { mode, ..old(self)@ }),
    {
        self.mode = mode;
    }

    /// Carry out the control packet whose wire bytes are `raw`, and say what
    /// must follow on the bus.
    pub fn handle_packet(&mut self, raw: [u8; 2]) -> (r: Result<Action, VdcError>)
        requires
            old(self)@.wf(),
        ensures
            final(self)@.wf(),
            match ControlPacket::decode(raw[0], raw[1]) {
                Err(e) => r == Err::<Action, _>(VdcError::Packet(e)) && final(self)@ == old(self)@,
                Ok(p) => r == old(self)@.response(p) && final(self)@ == old(self)@.after(p),
            },
    {
        proof {
            lemma_row_sizes(self@);
        }
        let packet = match ControlPacket::unpack(raw) {
            Ok(p) => p,
            Err(e) => {
                return Err(VdcError::Packet(e));
            },
        };
        match packet {
            ControlPacket::Reset => {
                self.clear_buffers();
                let mode = DisplayMode::new(DisplayModeResolution::R640x480, true);
                proof {
                    DisplayMode::lemma_from_view((DisplayModeResolution::R640x480, true));
                    DisplayMode::lemma_view_eq(mode, initial_mode());
                }
                self.set_current_display_mode(mode);
                Ok(Action::Idle)
            },
            ControlPacket::SetMode(mode) => {
                self.clear_buffers();
                self.set_current_display_mode(mode);
                Ok(Action::Idle)
            },
            ControlPacket::GetMode => {
                let mode = self.get_current_display_mode();
                proof {
                    crate::com::lemma_mode_roundtrip(mode);
                }
                let out = ControlPacket::SetMode(mode).pack();
                Ok(Action::SendPacket(out[0], out[1]))
            },
            ControlPacket::ReadRowPixels(row_index) => {
                let row_size = self.current_pixel_row_size();
                let row = row_index as usize;
                if row * row_size + row_size <= self.pixels.len() {
                    Ok(Action::SendPixelRow(row))
                } else {
                    Err(VdcError::RowOutOfRange)
                }
            },
            ControlPacket::WriteRowPixels(row_index) => {
                let row_size = self.current_pixel_row_size();
                let row = row_index as usize;
                if row * row_size + row_size <= self.pixels.len() {
                    Ok(Action::ReceivePixelRow(row))
                } else {
                    Err(VdcError::RowOutOfRange)
                }
            },
            ControlPacket::ReadRowChars(row_index) => {
                let row_size = self.current_char_row_size();
                let row = row_index as usize;
                if row * row_size + row_size <= self.chars.len() {
                    Ok(Action::SendCharRow(row))
                } else {
                    Err(VdcError::RowOutOfRange)
                }
            },
            ControlPacket::WriteRowChars(row_index) => {
                let row_size = self.current_char_row_size();
                let row = row_index as usize;
                if row * row_size + row_size <= self.chars.len() {
                    Ok(Action::ReceiveCharRow(row))
                } else {
                    Err(VdcError::RowOutOfRange)
                }
            },
        }
    }

    /// The bytes of pixel row `row`, to be sent on the bus.
    pub fn pixel_row(&self, row: usize) -> (data: &[u8])
        requires
            self@.wf(),
            self@.pixel_row_in_range(row as int),
        ensures
            data@ == self@.pixel_row(row as int),
    {
        let row_size = self.current_pixel_row_size();
        let row_offset = row * row_size;
        vstd::slice::slice_subrange(self.pixels.as_slice(), row_offset, row_offset + row_size)
    }

    /// The cells of character row `row`, to be sent on the bus.
    pub fn char_row(&self, row: usize) -> (cells: &[CharCell])
        requires
            self@.wf(),
            self@.char_row_in_range(row as int),
        ensures
            cells@ == self@.char_row(row as int),
    {
        let row_size = self.current_char_row_size();
        let row_offset = row * row_size;
        vstd::slice::slice_subrange(self.chars.as_slice(), row_offset, row_offset + row_size)
    }

    /// Overwrite pixel row `row` with `data`, read from the bus.
    pub fn store_pixel_row(&mut self, row: usize, data: &[u8])
        requires
            old(self)@.wf(),
            old(self)@.pixel_row_in_range(row as int),
            data@.len() == old(self)@.pixel_row_size(),
        ensures
            final(self)@ == old(self)@.with_pixel_row(row as int, data@),
            final(self)@.wf(),
    {
        proof {
            lemma_row_sizes(self@);
        }
        let row_size = self.current_pixel_row_size();
        let row_offset = row * row_size;
        let mut i: usize = 0;
        while i < row_size
            invariant
                i <= row_size,
                row_size == old(self)@.pixel_row_size(),
                row_offset == row * row_size,
                row_offset + row_size <= PIXEL_BUFFER_LEN,
                data@.len() == row_size,
                self.pixels.len() == PIXEL_BUFFER_LEN,
                self.chars.len() == CHAR_BUFFER_LEN,
                self.chars@ == old(self).chars@,
                self.mode == old(self).mode,
                self.pixels@ == splice(old(self).pixels@, row_offset as int, data@.subrange(0, i as int)),
            decreases row_size - i,
        {
            self.pixels[row_offset + i] = data[i];
            i += 1;
            assert(self.pixels@ =~= splice(old(self).pixels@, row_offset as int, data@.subrange(0, i as int)));
        }
        assert(data@.subrange(0, row_size as int) =~= data@);
    }

    /// Overwrite character row `row` with `cells`, read from the bus, and
    /// draw each cell `c` of them, in order, at column `c` of character row
    /// `row` of the pixel buffer.
    pub fn store_char_row(&mut self, row: usize, cells: &[CharCell])
        requires
            old(self)@.wf(),
            old(self)@.char_row_in_range(row as int),
            cells@.len() == old(self)@.char_row_size(),
        ensures
            final(self)@ == old(self)@.with_char_row(row as int, cells@),
            final(self)@.wf(),
    {
        proof {
            lemma_row_sizes(self@);
        }
        let row_size = self.current_char_row_size();
        let row_offset = row * row_size;
        let mut i: usize = 0;
        while i < row_size
            invariant
                i <= row_size,
                row_size == old(self)@.char_row_size(),
                row_offset == row * row_size,
                row_offset + row_size <= CHAR_BUFFER_LEN,
                cells@.len() == row_size,
                self.chars.len() == CHAR_BUFFER_LEN,
                self.pixels.len() == PIXEL_BUFFER_LEN,
                self.pixels@ == old(self).pixels@,
                self.mode == old(self).mode,
                self.chars@ == splice(old(self).chars@, row_offset as int, cells@.subrange(0, i as int)),
            decreases row_size - i,
        {
            self.chars[row_offset + i] = cells[i];
            i += 1;
            assert(self.chars@ =~= splice(old(self).chars@, row_offset as int, cells@.subrange(0, i as int)));
        }
        assert(cells@.subrange(0, row_size as int) =~= cells@);
        let mut col: usize = 0;
        while col < row_size
            invariant
                col <= row_size,
                row_size == old(self)@.char_row_size(),
                row_size == 80 || row_size == 40 || row_size == 20,
                row_offset == row * row_size,
                row_offset + row_size <= CHAR_BUFFER_LEN,
                cells@.len() == row_size,
                self.pixels.len() == PIXEL_BUFFER_LEN,
                self.chars.len() == CHAR_BUFFER_LEN,
                self.mode == old(self).mode,
                self.chars@ == splice(old(self).chars@, row_offset as int, cells@),
                self.pixels@ == draw_cells(
                    old(self).pixels@,
                    cells@,
                    row_size as int,
                    row as int,
                    col as nat,
                ),
            decreases row_size - col,
        {
            let cell = self.chars[row_offset + col];
            assert(cell == cells@[col as int]);
            proof {
                lemma_char_row_cell_fits(row as int, row_size as int, col as int);
                lemma_draw_len(
                    self.pixels@,
                    row_size as int,
                    col as int,
                    row as int,
                    cell_rows(cell),
                    8,
                );
            }
            render_char_cell(self.pixels.as_mut_slice(), row_size, col, row, &cell);
            col += 1;
        }
    }

    /// The pixels of the current mode, for drawing into directly.
    pub fn framebuffer(&self) -> (fb: FrameBuffer<'_>)
        requires
            self@.wf(),
        ensures
            fb.data@ == self@.pixels.subrange(0, self@.pixel_row_size() * self@.pixel_size().1),
            (fb.width, fb.height) == self@.pixel_size(),
            fb.bits_per_pixel == 1,
    {
        let (width, height) = self.current_pixel_size();
        let row_size = self.current_pixel_row_size();
        let data = vstd::slice::slice_subrange(self.pixels.as_slice(), 0, row_size * height);
        FrameBuffer { data, width, height, bits_per_pixel: 1 }
    }
}

} // verus!
