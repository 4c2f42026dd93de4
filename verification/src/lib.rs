//! Wire protocol and display-controller logic of the Ntrix video display controller.
pub mod bus;
pub mod cell;
pub mod com;
pub mod font;
pub mod helpers;
pub mod vdc;

pub use com::{
    ControlPacket, ControlPacketError, DisplayMode, DisplayModeResolution, PackablePayload,
};
pub use helpers::does_u16_fit_u12;
pub use bus::transfer_result;
pub use cell::{pack_cells, unpack_cells, CharAttrs, CharCell, ATTR_INVERT, CELL_BYTES};
pub use font::{draw_glyph_rows, render_char_cell, FONT_HEIGHT, FONT_WIDTH};
pub use vdc::{Action, FrameBuffer, Vdc, VdcError};
