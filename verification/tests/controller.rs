use ntrix_vdc::font::FONT_SHEET_LEN;
use ntrix_vdc::vdc::{CHAR_BUFFER_LEN, PIXEL_BUFFER_LEN};
use ntrix_vdc::{
    draw_glyph_rows, pack_cells, render_char_cell, transfer_result, unpack_cells, Action, CharCell,
    ControlPacket, ControlPacketError, DisplayMode, DisplayModeResolution, Vdc, VdcError,
    ATTR_INVERT,
};

fn font_byte(glyph: u8, y: usize) -> u8 {
    let g = glyph as usize;
    ibm437::IBM437_8X8_REGULAR_DATA[((g / 16) * 8 + y) * 16 + g % 16]
}

#[test]
fn font_sheet_size() {
    assert_eq!(ibm437::IBM437_8X8_REGULAR_DATA.len(), FONT_SHEET_LEN);
    assert_eq!(ibm437::CHARS_PER_ROW, 16);
}

#[test]
fn transfer_outcomes() {
    assert_eq!(transfer_result(2, 2), Ok(()));
    assert_eq!(transfer_result(0, 0), Ok(()));
    assert_eq!(transfer_result(1, 2), Err(1));
    assert_eq!(transfer_result(3, 2), Err(3));
    assert_eq!(transfer_result(-1, 2), Err(-1));
}

#[test]
fn render_cell_draws_glyph_rows() {
    let mut fb = vec![0xAAu8; 80 * 480];
    let cell = CharCell::new(b'A', 0);
    render_char_cell(&mut fb, 80, 3, 2, &cell);
    let mut changed = 0;
    for y in 0..8 {
        let idx = (2 * 8 + y) * 80 + 3;
        assert_eq!(fb[idx], font_byte(b'A', y));
        if font_byte(b'A', y) != 0xAA {
            changed += 1;
        }
    }
    assert!(changed > 0);
    for (i, b) in fb.iter().enumerate() {
        let in_cell = i % 80 == 3 && (16..24).contains(&(i / 80));
        if !in_cell {
            assert_eq!(*b, 0xAA);
        }
    }
}

#[test]
fn render_cell_inverted() {
    let mut fb = vec![0u8; 80 * 480];
    let cell = CharCell::new(b'g', 1);
    render_char_cell(&mut fb, 80, 79, 59, &cell);
    for y in 0..8 {
        assert_eq!(fb[(59 * 8 + y) * 80 + 79], !font_byte(b'g', y));
    }
}

#[test]
fn render_differs_from_glyph_index() {
    // Each drawn row is the font's byte, not the index it was read from.
    let mut fb = vec![0u8; 16];
    render_char_cell(&mut fb, 1, 0, 0, &CharCell::new(0xDB, 0));
    let mut differs = false;
    for y in 0..8 {
        assert_eq!(fb[y], font_byte(0xDB, y));
        let index = ((0xDB / 16) * 8 + y) * 16 + 0xDB % 16;
        differs |= fb[y] != index as u8;
    }
    assert!(differs);
}

#[test]
fn new_controller_is_cleared() {
    let vdc = Vdc::new();
    assert_eq!(
        vdc.get_current_display_mode(),
        DisplayMode::new(DisplayModeResolution::R640x480, true)
    );
    assert_eq!(vdc.current_pixel_size(), (640, 480));
    assert_eq!(vdc.current_pixel_row_size(), 80);
    assert_eq!(vdc.current_char_size(), (80, 60));
    assert_eq!(vdc.current_char_row_size(), 80);
    assert!(vdc.pixel_row(0).iter().all(|b| *b == 0));
    assert!(vdc.char_row(59).iter().all(|c| *c == CharCell::blank()));
    let fb = vdc.framebuffer();
    assert_eq!((fb.width, fb.height, fb.bits_per_pixel), (640, 480, 1));
    assert_eq!(fb.data.len(), PIXEL_BUFFER_LEN);
}

#[test]
fn get_mode_answers_set_mode() {
    let mut vdc = Vdc::new();
    let off = ControlPacket::SetMode(DisplayMode::new(DisplayModeResolution::R640x480, false));
    assert_eq!(vdc.handle_packet(off.pack()), Ok(Action::Idle));
    let reply = vdc.handle_packet(ControlPacket::GetMode.pack()).unwrap();
    assert_eq!(reply, Action::SendPacket(0x30, 0x00));
    assert_eq!(ControlPacket::unpack([0x30, 0x00]), Ok(off));
}

#[test]
fn initial_get_mode_reply() {
    let mut vdc = Vdc::new();
    assert_eq!(vdc.handle_packet([0x20, 0x00]), Ok(Action::SendPacket(0x30, 0x01)));
}

#[test]
fn pixel_row_write_then_read() {
    let mut vdc = Vdc::new();
    assert_eq!(vdc.handle_packet([0x51, 0xDF]), Ok(Action::ReceivePixelRow(479)));
    let data: Vec<u8> = (0..80u8).collect();
    vdc.store_pixel_row(479, &data);
    assert_eq!(vdc.handle_packet([0x41, 0xDF]), Ok(Action::SendPixelRow(479)));
    assert_eq!(vdc.pixel_row(479), &data[..]);
    assert!(vdc.pixel_row(478).iter().all(|b| *b == 0));
}

#[test]
fn rows_out_of_range() {
    let mut vdc = Vdc::new();
    assert_eq!(vdc.handle_packet([0x41, 0xE0]), Err(VdcError::RowOutOfRange));
    assert_eq!(vdc.handle_packet([0x51, 0xE0]), Err(VdcError::RowOutOfRange));
    assert_eq!(vdc.handle_packet([0x60, 60]), Err(VdcError::RowOutOfRange));
    assert_eq!(vdc.handle_packet([0x70, 60]), Err(VdcError::RowOutOfRange));
    assert_eq!(vdc.handle_packet([0x60, 59]), Ok(Action::SendCharRow(59)));
    assert_eq!(vdc.handle_packet([0x70, 59]), Ok(Action::ReceiveCharRow(59)));
}

#[test]
fn bad_packets() {
    let mut vdc = Vdc::new();
    assert_eq!(
        vdc.handle_packet([0x00, 0x00]),
        Err(VdcError::Packet(ControlPacketError::InvalidCode))
    );
    assert_eq!(
        vdc.handle_packet([0x30, 0x06]),
        Err(VdcError::Packet(ControlPacketError::InvalidPayload))
    );
}

#[test]
fn reset_and_set_mode_clear_buffers() {
    let mut vdc = Vdc::new();
    vdc.store_pixel_row(3, &[0xFF; 80]);
    vdc.store_char_row(0, &[CharCell::new(b'x', 1); 80]);
    assert_eq!(vdc.handle_packet([0x10, 0x00]), Ok(Action::Idle));
    assert!(vdc.pixel_row(3).iter().all(|b| *b == 0));
    assert!(vdc.char_row(0).iter().all(|c| *c == CharCell::blank()));
    assert_eq!(
        vdc.get_current_display_mode(),
        DisplayMode::new(DisplayModeResolution::R640x480, true)
    );
    vdc.store_pixel_row(3, &[0xFF; 80]);
    assert_eq!(vdc.handle_packet([0x30, 0x00]), Ok(Action::Idle));
    assert!(vdc.pixel_row(3).iter().all(|b| *b == 0));
    assert_eq!(
        vdc.get_current_display_mode(),
        DisplayMode::new(DisplayModeResolution::R640x480, false)
    );
}

#[test]
fn char_row_is_stored_and_drawn_in_place() {
    for row in [0usize, 1, 33, 59] {
        let mut vdc = Vdc::new();
        let cells: Vec<CharCell> =
            (0..80u8).map(|c| CharCell::new(c.wrapping_mul(7), c % 2)).collect();
        vdc.store_char_row(row, &cells);
        assert_eq!(vdc.char_row(row), &cells[..]);
        for c in 0..80 {
            for y in 0..8 {
                let b = font_byte(cells[c].glyph, y);
                let expected = if c % 2 == 1 { !b } else { b };
                assert_eq!(vdc.pixel_row(row * 8 + y)[c], expected);
            }
        }
        let fb = vdc.framebuffer();
        for (i, b) in fb.data.iter().enumerate() {
            if i / 80 / 8 != row {
                assert_eq!(*b, 0);
            }
        }
    }
}

#[test]
fn char_row_written_later_reads_back() {
    let mut vdc = Vdc::new();
    let cells = [CharCell::new(b'a', 0x02); 80];
    vdc.store_char_row(53, &cells);
    vdc.store_pixel_row(424, &[0x0F; 80]);
    vdc.store_char_row(52, &[CharCell::blank(); 80]);
    assert!(vdc.handle_packet([0x20, 0x00]).is_ok());
    assert_eq!(vdc.char_row(53), &cells[..]);
    assert_eq!(vdc.char_row(53)[0].attrs.bits, 0x02);
    assert!(!vdc.char_row(53)[0].attrs.contains_invert());
    assert_eq!(CHAR_BUFFER_LEN, 4800);
}

#[test]
fn smaller_modes_shrink_rows() {
    let mut vdc = Vdc::new();
    // 320x240 with character cells: mode 3.
    assert_eq!(vdc.handle_packet([0x30, 0x03]), Ok(Action::Idle));
    assert_eq!(vdc.current_pixel_size(), (320, 240));
    assert_eq!(vdc.current_pixel_row_size(), 40);
    assert_eq!(vdc.current_char_size(), (40, 30));
    assert_eq!(vdc.current_char_row_size(), 40);
    assert_eq!(vdc.handle_packet([0x20, 0x00]), Ok(Action::SendPacket(0x30, 0x03)));
    let cells = [CharCell::new(0xDB, 0); 40];
    vdc.store_char_row(2, &cells);
    for y in 0..8 {
        assert_eq!(vdc.pixel_row(16 + y)[39], font_byte(0xDB, y));
    }
    let fb = vdc.framebuffer();
    assert_eq!((fb.width, fb.height), (320, 240));
    assert_eq!(fb.data.len(), 40 * 240);
    // 160x120 pixel-only: mode 4.
    assert_eq!(vdc.handle_packet([0x30, 0x04]), Ok(Action::Idle));
    assert_eq!(vdc.current_pixel_size(), (160, 120));
    assert_eq!(vdc.current_pixel_row_size(), 20);
    assert_eq!(vdc.handle_packet([0x20, 0x00]), Ok(Action::SendPacket(0x30, 0x04)));
}

#[test]
fn cells_pack_and_unpack() {
    let cells = [CharCell::new(b'H', 0), CharCell::new(b'i', 0x81)];
    let bytes = pack_cells(&cells);
    assert_eq!(bytes, vec![b'H', 0, b'i', 0x81]);
    assert_eq!(unpack_cells(&bytes), cells.to_vec());
    assert_eq!(unpack_cells(&[1, 2, 3, 4]), vec![CharCell::new(1, 2), CharCell::new(3, 4)]);
    assert!(unpack_cells(&[]).is_empty());
    assert!(CharCell::new(0, ATTR_INVERT).attrs.contains_invert());
    assert!(!CharCell::new(0, 0xFE).attrs.contains_invert());
}

#[test]
fn glyph_rows_drawn_as_given() {
    let mut fb = vec![0x55u8; 3 * 8 * 2];
    let rows = [1u8, 2, 3, 4, 5, 6, 7, 8];
    draw_glyph_rows(&mut fb, 3, 1, 1, rows, false);
    for y in 0..8 {
        assert_eq!(fb[(8 + y) * 3 + 1], rows[y]);
    }
    draw_glyph_rows(&mut fb, 3, 2, 0, rows, true);
    for y in 0..8 {
        assert_eq!(fb[y * 3 + 2], !rows[y]);
    }
    assert_eq!(fb[0], 0x55);
}

#[test]
fn redraw_changes_nothing() {
    let mut fb = vec![0u8; 80 * 480];
    let cell = CharCell::new(b'Q', 1);
    render_char_cell(&mut fb, 80, 10, 10, &cell);
    let once = fb.clone();
    render_char_cell(&mut fb, 80, 10, 10, &cell);
    assert_eq!(fb, once);
}

#[test]
fn queries_change_nothing() {
    let mut vdc = Vdc::new();
    vdc.store_pixel_row(7, &[0x5A; 80]);
    for raw in [[0x20u8, 0x00], [0x40, 7], [0x60, 3], [0x50, 7], [0x70, 3]] {
        assert!(vdc.handle_packet(raw).is_ok());
        assert!(vdc.pixel_row(7).iter().all(|b| *b == 0x5A));
        assert!(vdc.pixel_row(6).iter().all(|b| *b == 0));
        assert_eq!(
            vdc.get_current_display_mode(),
            DisplayMode::new(DisplayModeResolution::R640x480, true)
        );
    }
}
