use ntrix_vdc::{
    does_u16_fit_u12, ControlPacket, ControlPacketError, DisplayMode, DisplayModeResolution,
    PackablePayload,
};

fn mode(chars: bool) -> DisplayMode {
    DisplayMode::new(DisplayModeResolution::R640x480, chars)
}

#[test]
fn u12_limit() {
    assert!(does_u16_fit_u12(0));
    assert!(does_u16_fit_u12(0x0FFF));
    assert!(!does_u16_fit_u12(0x1000));
    assert!(!does_u16_fit_u12(0xFFFF));
}

#[test]
fn pack_puts_code_in_top_nibble_big_endian() {
    assert_eq!(ControlPacket::Reset.pack(), [0x10, 0x00]);
    assert_eq!(ControlPacket::GetMode.pack(), [0x20, 0x00]);
    assert_eq!(ControlPacket::SetMode(mode(true)).pack(), [0x30, 0x01]);
    assert_eq!(ControlPacket::SetMode(mode(false)).pack(), [0x30, 0x00]);
    assert_eq!(ControlPacket::ReadRowPixels(0x0ABC).pack(), [0x4A, 0xBC]);
    assert_eq!(ControlPacket::WriteRowPixels(5).pack(), [0x50, 0x05]);
    assert_eq!(ControlPacket::ReadRowChars(59).pack(), [0x60, 59]);
    assert_eq!(ControlPacket::WriteRowChars(0x0123).pack(), [0x71, 0x23]);
    assert_eq!(ControlPacket::WriteRowChars(0x0FFF).pack(), [0x7F, 0xFF]);
}

#[test]
fn unpack_each_code() {
    assert_eq!(ControlPacket::unpack([0x10, 0x00]), Ok(ControlPacket::Reset));
    assert_eq!(ControlPacket::unpack([0x20, 0x00]), Ok(ControlPacket::GetMode));
    assert_eq!(ControlPacket::unpack([0x30, 0x01]), Ok(ControlPacket::SetMode(mode(true))));
    assert_eq!(ControlPacket::unpack([0x30, 0x00]), Ok(ControlPacket::SetMode(mode(false))));
    assert_eq!(ControlPacket::unpack([0x4A, 0xBC]), Ok(ControlPacket::ReadRowPixels(0x0ABC)));
    assert_eq!(ControlPacket::unpack([0x50, 0x05]), Ok(ControlPacket::WriteRowPixels(5)));
    assert_eq!(ControlPacket::unpack([0x60, 0x3B]), Ok(ControlPacket::ReadRowChars(59)));
    assert_eq!(ControlPacket::unpack([0x7F, 0xFF]), Ok(ControlPacket::WriteRowChars(0x0FFF)));
}

#[test]
fn unpack_ignores_payload_of_reset_and_get_mode() {
    assert_eq!(ControlPacket::unpack([0x1F, 0xFF]), Ok(ControlPacket::Reset));
    assert_eq!(ControlPacket::unpack([0x23, 0x45]), Ok(ControlPacket::GetMode));
}

#[test]
fn unpack_rejects_unknown_codes() {
    for b0 in [0x00u8, 0x0F, 0x80, 0x9A, 0xF0, 0xFF] {
        assert_eq!(ControlPacket::unpack([b0, 0x00]), Err(ControlPacketError::InvalidCode));
    }
}

#[test]
fn unpack_rejects_bad_mode_payload() {
    assert_eq!(ControlPacket::unpack([0x30, 0x06]), Err(ControlPacketError::InvalidPayload));
    assert_eq!(ControlPacket::unpack([0x30, 0x07]), Err(ControlPacketError::InvalidPayload));
    assert_eq!(ControlPacket::unpack([0x3F, 0xFE]), Err(ControlPacketError::InvalidPayload));
}

#[test]
fn all_listed_modes_decode() {
    let table = [
        (0u16, DisplayModeResolution::R640x480, false),
        (1, DisplayModeResolution::R640x480, true),
        (2, DisplayModeResolution::R320x240, false),
        (3, DisplayModeResolution::R320x240, true),
        (4, DisplayModeResolution::R160x120, false),
        (5, DisplayModeResolution::R160x120, true),
    ];
    for (payload, res, chars) in table {
        let m = DisplayMode::unpack(payload).unwrap();
        assert_eq!(m, DisplayMode::new(res, chars));
        assert_eq!(m.pack(), payload);
        assert_eq!(m.chars_enabled(), payload % 2 == 1);
        let bytes = ControlPacket::SetMode(m).pack();
        assert_eq!(bytes, [0x30, payload as u8]);
        assert_eq!(ControlPacket::unpack(bytes), Ok(ControlPacket::SetMode(m)));
    }
    assert_eq!(DisplayModeResolution::R320x240.width(), 320);
    assert_eq!(DisplayModeResolution::R320x240.height(), 240);
    assert_eq!(DisplayModeResolution::R160x120.width(), 160);
    assert_eq!(DisplayModeResolution::R160x120.height(), 120);
}

#[test]
fn unpack_mode_ignores_high_payload_bits() {
    assert_eq!(ControlPacket::unpack([0x30, 0x09]), Ok(ControlPacket::SetMode(mode(true))));
    assert_eq!(ControlPacket::unpack([0x3F, 0xF8]), Ok(ControlPacket::SetMode(mode(false))));
}

#[test]
fn packet_roundtrip() {
    let packets = [
        ControlPacket::Reset,
        ControlPacket::GetMode,
        ControlPacket::SetMode(mode(true)),
        ControlPacket::SetMode(mode(false)),
        ControlPacket::ReadRowPixels(0),
        ControlPacket::WriteRowPixels(479),
        ControlPacket::ReadRowChars(0x0FFF),
        ControlPacket::WriteRowChars(17),
    ];
    for p in packets {
        let bytes = p.pack();
        assert_eq!(ControlPacket::unpack(bytes), Ok(p));
    }
}

#[test]
fn wire_roundtrip() {
    for bytes in [[0x10u8, 0x00], [0x20, 0x00], [0x30, 0x01], [0x4A, 0xBC], [0x71, 0x23]] {
        let p = ControlPacket::unpack(bytes).unwrap();
        assert_eq!(p.pack(), bytes);
    }
}

#[test]
fn display_mode_payload() {
    assert_eq!(mode(true).pack(), 1);
    assert_eq!(mode(false).pack(), 0);
    assert_eq!(DisplayMode::unpack(1), Ok(mode(true)));
    assert_eq!(DisplayMode::unpack(0), Ok(mode(false)));
    assert_eq!(DisplayMode::unpack(0b110), Err(ControlPacketError::InvalidPayload));
    assert_eq!(DisplayMode::unpack(0xFF8), Ok(mode(false)));
    assert_eq!(DisplayMode::unpack(mode(true).pack()), Ok(mode(true)));
}

#[test]
fn display_mode_parts_and_defaults() {
    let m = mode(true);
    assert_eq!(m.resolution(), DisplayModeResolution::R640x480);
    assert!(m.chars_enabled());
    assert_eq!(DisplayModeResolution::default(), DisplayModeResolution::R640x480);
    assert_eq!(DisplayMode::default(), mode(false));
    assert_eq!(DisplayModeResolution::R640x480.width(), 640);
    assert_eq!(DisplayModeResolution::R640x480.height(), 480);
    assert_eq!(DisplayModeResolution::R640x480.to_u16(), 0);
    assert_eq!(DisplayModeResolution::try_from_u16(0), Some(DisplayModeResolution::R640x480));
    assert_eq!(DisplayModeResolution::try_from_u16(2), Some(DisplayModeResolution::R320x240));
    assert_eq!(DisplayModeResolution::try_from_u16(4), Some(DisplayModeResolution::R160x120));
    assert_eq!(DisplayModeResolution::try_from_u16(6), None);
    assert_eq!(DisplayModeResolution::try_from_u16(1), None);
    assert_eq!(DisplayModeResolution::R160x120.to_u16(), 4);
}

