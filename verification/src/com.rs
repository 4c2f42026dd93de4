//! Shared API for the VDC wire protocol.
use vstd::prelude::*;

use crate::helpers::U12_MAX;

verus! {

/// The control code held in the top four bits of a control packet.
#[derive(Debug, Clone, Copy, PartialEq, Eq, Structural)]
enum ControlCode {
    Reset,
    GetMode,
    SetMode,
    ReadRowPixels,
    WriteRowPixels,
    ReadRowChars,
    WriteRowChars,
}

impl ControlCode {
    /// The number that stands for this code on the wire.
    spec fn value(self) -> u8 {
        match self {
            ControlCode::Reset => 1,
            ControlCode::GetMode => 2,
            ControlCode::SetMode => 3,
            ControlCode::ReadRowPixels => 4,
            ControlCode::WriteRowPixels => 5,
            ControlCode::ReadRowChars => 6,
            ControlCode::WriteRowChars => 7,
        }
    }

    fn to_u8(self) -> (v: u8)
        ensures
            v == self.value(),
    {
        match self {
            ControlCode::Reset => 1,
            ControlCode::GetMode => 2,
            ControlCode::SetMode => 3,
            ControlCode::ReadRowPixels => 4,
            ControlCode::WriteRowPixels => 5,
            ControlCode::ReadRowChars => 6,
            ControlCode::WriteRowChars => 7,
        }
    }

    /// The code whose wire number is `v`, if there is one.
    fn try_from_u8(v: u8) -> (code: Option<ControlCode>)
        ensures
            code is None <==> !(1 <= v <= 7),
            code matches Some(c) ==> c.value() == v,
    {
        match v {
            1 => Some(ControlCode::Reset),
            2 => Some(ControlCode::GetMode),
            3 => Some(ControlCode::SetMode),
            4 => Some(ControlCode::ReadRowPixels),
            5 => Some(ControlCode::WriteRowPixels),
            6 => Some(ControlCode::ReadRowChars),
            7 => Some(ControlCode::WriteRowChars),
            _ => None,
        }
    }
}

/// Transform a control packet payload into/from it's raw form
pub trait PackablePayload where Self: Sized {
    fn pack(self) -> u16;

    fn unpack(payload: u16) -> Result<Self, ControlPacketError>;
}

/// The resolution part of a display mode.
#[derive(Debug, Clone, Copy, PartialEq, Eq, Structural)]
pub enum DisplayModeResolution {
    R640x480,
    R320x240,
    R160x120,
}

/// The resolution whose mode number is `v`, if there is one: 0 is 640x480,
/// 2 is 320x240 and 4 is 160x120.
pub open spec fn resolution_from_value(v: int) -> Option<DisplayModeResolution> {
    if v == 0 {
        Some(DisplayModeResolution::R640x480)
    } else if v == 2 {
        Some(DisplayModeResolution::R320x240)
    } else if v == 4 {
        Some(DisplayModeResolution::R160x120)
    } else {
        None
    }
}

impl DisplayModeResolution {
    /// The number that stands for this resolution in a mode payload.
    pub open spec fn value(self) -> u16 {
        match self {
            DisplayModeResolution::R640x480 => 0,
            DisplayModeResolution::R320x240 => 2,
            DisplayModeResolution::R160x120 => 4,
        }
    }

    /// The number that stands for this resolution in a mode payload.
    pub fn to_u16(self) -> (v: u16)
        ensures
            v == self.value(),
    {
        match self {
            DisplayModeResolution::R640x480 => 0,
            DisplayModeResolution::R320x240 => 2,
            DisplayModeResolution::R160x120 => 4,
        }
    }

    /// The resolution whose mode number is `v`, if there is one.
    pub fn try_from_u16(v: u16) -> (res: Option<DisplayModeResolution>)
        ensures
            res == resolution_from_value(v as int),
    {
        if v == 0 {
            Some(DisplayModeResolution::R640x480)
        } else if v == 2 {
            Some(DisplayModeResolution::R320x240)
        } else if v == 4 {
            Some(DisplayModeResolution::R160x120)
        } else {
            None
        }
    }

    pub open spec fn spec_width(self) -> usize {
        match self {
            DisplayModeResolution::R640x480 => 640,
            DisplayModeResolution::R320x240 => 320,
            DisplayModeResolution::R160x120 => 160,
        }
    }

    pub open spec fn spec_height(self) -> usize {
        match self {
            DisplayModeResolution::R640x480 => 480,
            DisplayModeResolution::R320x240 => 240,
            DisplayModeResolution::R160x120 => 120,
        }
    }

    /// Width of the screen in pixels.
    #[verifier::when_used_as_spec(spec_width)]
    pub fn width(self) -> (w: usize)
        ensures
            w == self.spec_width(),
    {
        match self {
            DisplayModeResolution::R640x480 => 640,
            DisplayModeResolution::R320x240 => 320,
            DisplayModeResolution::R160x120 => 160,
        }
    }

    /// Height of the screen in pixels.
    #[verifier::when_used_as_spec(spec_height)]
    pub fn height(self) -> (h: usize)
        ensures
            h == self.spec_height(),
    {
        match self {
            DisplayModeResolution::R640x480 => 480,
            DisplayModeResolution::R320x240 => 240,
            DisplayModeResolution::R160x120 => 120,
        }
    }
}

/// The resolutions of the protocol's mode table, by mode number: 0 is
/// 640x480, 2 is 320x240 and 4 is 160x120; the mode number plus one is the
/// same resolution with character cells, and every resolution is 4:3.
pub proof fn lemma_mode_table(r: DisplayModeResolution)
    ensures
        r.value() == 0 ==> r.spec_width() == 640 && r.spec_height() == 480,
        r.value() == 2 ==> r.spec_width() == 320 && r.spec_height() == 240,
        r.value() == 4 ==> r.spec_width() == 160 && r.spec_height() == 120,
        r.value() == 0 || r.value() == 2 || r.value() == 4,
        r.spec_width() * 3 == r.spec_height() * 4,
        resolution_from_value(r.value() as int) == Some(r),
        decode_mode((r.value() + 1) as u16) == Ok::<_, ControlPacketError>((r, true)),
        decode_mode(r.value()) == Ok::<_, ControlPacketError>((r, false)),
{
}

impl Default for DisplayModeResolution {
    fn default() -> (r: Self)
        ensures
            r == DisplayModeResolution::R640x480,
    {
        DisplayModeResolution::R640x480
    }
}

/// A display mode: a resolution and whether character cells are drawn.
#[derive(Debug, Clone, Copy, PartialEq, Eq, Structural)]
pub struct DisplayMode {
    resolution: DisplayModeResolution,
    chars_enabled: bool,
}

impl View for DisplayMode {
    type V = (DisplayModeResolution, bool);

    closed spec fn view(&self) -> (DisplayModeResolution, bool) {
        (self.resolution, self.chars_enabled)
    }
}

/// The mode payload of a display mode: the resolution's (even) number plus
/// one when character cells are enabled.
pub open spec fn mode_payload(resolution: DisplayModeResolution, chars_enabled: bool) -> u16 {
    (resolution.value() + if chars_enabled { 1u16 } else { 0u16 }) as u16
}

/// What a mode payload decodes to: bits 1 and 2 select the resolution
/// (see [`resolution_from_value`]; both bits set names none), bit 0 enables
/// character cells, and the bits above are ignored.
pub open spec fn decode_mode(payload: u16) -> Result<(DisplayModeResolution, bool), ControlPacketError> {
    match resolution_from_value(((payload / 2) % 4) * 2) {
        Some(r) => Ok((r, payload % 2 == 1)),
        None => Err(ControlPacketError::InvalidPayload),
    }
}

/// Or-ing a bit into an even number adds it.
proof fn lemma_or_low_bit(r: u16, c: u16)
    by (bit_vector)
    requires
        r % 2 == 0,
        c <= 1,
    ensures
        r | c == r + c,
{
}

/// The mask tests of a mode payload, read as arithmetic.
proof fn lemma_mode_masks(p: u16)
    by (bit_vector)
    ensures
        p & 0b110u16 == ((p / 2) % 4) * 2,
        p & 0b001u16 == p % 2,
{
}

impl DisplayMode {
    pub fn new(resolution: DisplayModeResolution, chars_enabled: bool) -> (mode: Self)
        ensures
            mode@ == (resolution, chars_enabled),
    {
        Self { resolution, chars_enabled }
    }

    /// The resolution of this mode.
    pub fn resolution(&self) -> (r: DisplayModeResolution)
        ensures
            r == self@.0,
    {
        self.resolution
    }

    /// Whether character cells are drawn in this mode.
    pub fn chars_enabled(&self) -> (b: bool)
        ensures
            b == self@.1,
    {
        self.chars_enabled
    }

    /// The mode whose view is `v`.
    pub closed spec fn from_view(v: (DisplayModeResolution, bool)) -> DisplayMode {
        DisplayMode { resolution: v.0, chars_enabled: v.1 }
    }

    /// A mode built from a view has that view.
    pub proof fn lemma_from_view(v: (DisplayModeResolution, bool))
        ensures
            #[trigger] DisplayMode::from_view(v)@ == v,
    {
    }

    /// Two modes are equal exactly when their views are.
    pub proof fn lemma_view_eq(a: DisplayMode, b: DisplayMode)
        ensures
            a == b <==> a@ == b@,
    {
    }
}

impl Default for DisplayMode {
    fn default() -> (m: Self)
        ensures
            m@ == (DisplayModeResolution::R640x480, false),
    {
        DisplayMode { resolution: DisplayModeResolution::R640x480, chars_enabled: false }
    }
}

impl PackablePayload for DisplayMode {
    fn pack(self) -> (payload: u16)
        ensures
            payload == mode_payload(self@.0, self@.1),
    {
        let res_bits = self.resolution.to_u16();
        let chars_bit: u16 = if self.chars_enabled { 1 } else { 0 };
        proof {
            lemma_or_low_bit(res_bits, chars_bit);
        }
        res_bits | chars_bit
    }

    fn unpack(payload: u16) -> (r: Result<Self, ControlPacketError>)
        ensures
            match (r, decode_mode(payload)) {
                (Ok(m), Ok(v)) => m@ == v,
                (Err(e), Err(f)) => e == f,
                _ => false,
            },
    {
        proof {
            lemma_mode_masks(payload);
        }
        let resolution = match DisplayModeResolution::try_from_u16(payload & 0b110) {
            Some(res) => res,
            None => {
                return Err(ControlPacketError::InvalidPayload);
            },
        };
        Ok(Self { resolution, chars_enabled: payload & 0b001 != 0 })
    }
}

#[derive(Debug, PartialEq, Eq, Structural)]
pub enum ControlPacketError {
    InvalidCode,
    InvalidPayload,
}

#[derive(Debug, PartialEq, Eq, Structural)]
pub enum ControlPacket {
    /// Reset the VDC
    Reset,
    /// Get current display mode
    GetMode,
    /// Set a new display mode
    SetMode(DisplayMode),
    /// Read a specific row of pixel data
    ReadRowPixels(u16),
    /// Write a specific row of pixel data
    WriteRowPixels(u16),
    /// Read a specific row of character data
    ReadRowChars(u16),
    /// Write a specific row of character data
    WriteRowChars(u16),
}

impl ControlPacket {
    /// The control code number of this packet (the top four bits on the wire).
    pub open spec fn code_value(self) -> u8 {
        match self {
            ControlPacket::Reset => 1,
            ControlPacket::GetMode => 2,
            ControlPacket::SetMode(_) => 3,
            ControlPacket::ReadRowPixels(_) => 4,
            ControlPacket::WriteRowPixels(_) => 5,
            ControlPacket::ReadRowChars(_) => 6,
            ControlPacket::WriteRowChars(_) => 7,
        }
    }

    /// The payload of this packet (the bottom twelve bits on the wire).
    pub open spec fn payload(self) -> u16 {
        match self {
            ControlPacket::Reset => 0,
            ControlPacket::GetMode => 0,
            ControlPacket::SetMode(m) => mode_payload(m@.0, m@.1),
            ControlPacket::ReadRowPixels(p) => p,
            ControlPacket::WriteRowPixels(p) => p,
            ControlPacket::ReadRowChars(p) => p,
            ControlPacket::WriteRowChars(p) => p,
        }
    }

    /// Whether the payload fits in the twelve payload bits.
    pub open spec fn fits(self) -> bool {
        self.payload() <= U12_MAX
    }

    /// The two wire bytes of this packet, big-endian: the code in the high
    /// nibble of the first byte, then the twelve payload bits.
    pub open spec fn wire(self) -> (u8, u8) {
        (
            (self.code_value() * 16 + self.payload() / 256) as u8,
            (self.payload() % 256) as u8,
        )
    }

    /// What the two wire bytes `b0`, `b1` decode to.
    pub open spec fn decode(b0: u8, b1: u8) -> Result<ControlPacket, ControlPacketError> {
        let code = b0 / 16;
        let payload = ((b0 % 16) * 256 + b1) as u16;
        if code == 1 {
            Ok(ControlPacket::Reset)
        } else if code == 2 {
            Ok(ControlPacket::GetMode)
        } else if code == 3 {
            match decode_mode(payload) {
                Ok(v) => Ok(ControlPacket::SetMode(DisplayMode::from_view(v))),
                Err(e) => Err(e),
            }
        } else if code == 4 {
            Ok(ControlPacket::ReadRowPixels(payload))
        } else if code == 5 {
            Ok(ControlPacket::WriteRowPixels(payload))
        } else if code == 6 {
            Ok(ControlPacket::ReadRowChars(payload))
        } else if code == 7 {
            Ok(ControlPacket::WriteRowChars(payload))
        } else {
            Err(ControlPacketError::InvalidCode)
        }
    }
}

impl From<&ControlPacket> for ControlCode {
    fn from(value: &ControlPacket) -> (code: Self) {
        match value {
            ControlPacket::Reset => Self::Reset,
            ControlPacket::GetMode => Self::GetMode,
            ControlPacket::SetMode(_) => Self::SetMode,
            ControlPacket::ReadRowPixels(_) => Self::ReadRowPixels,
            ControlPacket::WriteRowPixels(_) => Self::WriteRowPixels,
            ControlPacket::ReadRowChars(_) => Self::ReadRowChars,
            ControlPacket::WriteRowChars(_) => Self::WriteRowChars,
        }
    }
}

impl vstd::std_specs::convert::FromSpecImpl<&ControlPacket> for ControlCode {
    open spec fn obeys_from_spec() -> bool {
        true
    }

    closed spec fn from_spec(value: &ControlPacket) -> Self {
        match value {
            ControlPacket::Reset => Self::Reset,
            ControlPacket::GetMode => Self::GetMode,
            ControlPacket::SetMode(_) => Self::SetMode,
            ControlPacket::ReadRowPixels(_) => Self::ReadRowPixels,
            ControlPacket::WriteRowPixels(_) => Self::WriteRowPixels,
            ControlPacket::ReadRowChars(_) => Self::ReadRowChars,
            ControlPacket::WriteRowChars(_) => Self::WriteRowChars,
        }
    }
}

/// Splitting the packed word `(code << 12) | payload` into its two big-endian bytes.
proof fn lemma_word_bytes(code: u16, payload: u16)
    by (bit_vector)
    requires
        code <= 15,
        payload <= 0x0FFF,
    ensures
        ((code << 12u16) | payload) >> 8u16 == code * 16 + payload / 256,
        ((code << 12u16) | payload) & 0xFFu16 == payload % 256,
{
}

/// Joining two big-endian bytes `hi`, `lo` into a word and splitting it into code and payload.
proof fn lemma_bytes_word(hi: u16, lo: u16)
    by (bit_vector)
    requires
        hi < 256,
        lo < 256,
    ensures
        ((hi << 8u16) | lo) & 0x0FFFu16 == (hi % 16) * 256 + lo,
        ((hi << 8u16) | lo) >> 12u16 == hi / 16,
{
}

impl ControlPacket {
    /// Pack ControlPacket into it's raw format,
    /// ready for sending over-the-wire.
    pub fn pack(&self) -> (bytes: [u8; 2])
        requires
            self.fits(),
        ensures
            (bytes[0], bytes[1]) == self.wire(),
    {
        let cc = ControlCode::from(self);
        let payload: u16 = match self {
            Self::Reset => 0,
            Self::GetMode => 0,
            Self::SetMode(p) => p.pack(),
            Self::ReadRowPixels(p) => *p,
            Self::WriteRowPixels(p) => *p,
            Self::ReadRowChars(p) => *p,
            Self::WriteRowChars(p) => *p,
        };
        let code = cc.to_u8() as u16;
        proof {
            lemma_word_bytes(code, payload);
        }
        let word: u16 = (code << 12u16) | payload;
        [(word >> 8u16) as u8, (word & 0xFFu16) as u8]
    }

    /// Unpack raw packet data received over-the-wire into a ControlPacket.
    pub fn unpack(bytes: [u8; 2]) -> (packet: Result<Self, ControlPacketError>)
        ensures
            packet == ControlPacket::decode(bytes[0], bytes[1]),
    {
        let packed: u16 = ((bytes[0] as u16) << 8u16) | (bytes[1] as u16);
        let payload = packed & 0x0FFF;  // bottom 12 bits
        proof {
            lemma_bytes_word(bytes[0] as u16, bytes[1] as u16);
        }
        let cc = match ControlCode::try_from_u8((packed >> 12u16) as u8) {
            Some(cc) => cc,
            None => {
                return Err(ControlPacketError::InvalidCode);
            },
        };  // top 4 bits
        Ok(
            match cc {
                ControlCode::Reset => Self::Reset,
                ControlCode::GetMode => Self::GetMode,
                ControlCode::SetMode => match DisplayMode::unpack(payload) {
                    Ok(mode) => Self::SetMode(mode),
                    Err(e) => {
                        return Err(e);
                    },
                },
                ControlCode::ReadRowPixels => Self::ReadRowPixels(payload),
                ControlCode::WriteRowPixels => Self::WriteRowPixels(payload),
                ControlCode::ReadRowChars => Self::ReadRowChars(payload),
                ControlCode::WriteRowChars => Self::WriteRowChars(payload),
            },
        )
    }
}

/// A mode payload decodes back to the mode it was made from.
pub proof fn lemma_mode_roundtrip(m: DisplayMode)
    ensures
        decode_mode(mode_payload(m@.0, m@.1)) == Ok::<_, ControlPacketError>(m@),
        mode_payload(m@.0, m@.1) < 8,
{
}

/// The low bit of a mode payload tells whether character cells are on:
/// even payloads are pixel-only modes, odd ones are mixed.
pub proof fn lemma_mode_parity(m: DisplayMode)
    ensures
        (mode_payload(m@.0, m@.1) % 2 == 1) <==> m@.1,
{
}

/// A payload of three bits that decodes to a mode is that mode's payload.
pub proof fn lemma_mode_payload_roundtrip(p: u16)
    requires
        p < 8,
        decode_mode(p) is Ok,
    ensures
        decode_mode(p) matches Ok(v) && mode_payload(v.0, v.1) == p,
{
}

/// Every packet whose payload fits in twelve bits is read back from its wire
/// bytes as the same packet.
pub proof fn lemma_packet_roundtrip(p: ControlPacket)
    requires
        p.fits(),
    ensures
        ControlPacket::decode(p.wire().0, p.wire().1) == Ok::<_, ControlPacketError>(p),
{
    let c = p.code_value() as int;
    let q = p.payload() as int;
    let b0 = p.wire().0;
    let b1 = p.wire().1;
    assert(b0 as int == c * 16 + q / 256);
    assert(b0 / 16 == c);
    assert(((b0 % 16) * 256 + b1) as int == q);
    if let ControlPacket::SetMode(m) = p {
        lemma_mode_roundtrip(m);
        DisplayMode::lemma_from_view(m@);
        DisplayMode::lemma_view_eq(DisplayMode::from_view(m@), m);
    }
}

/// Wire bytes that decode to a packet are written back unchanged, unless
/// they carry payload bits that reading ignores: any payload bit of a reset
/// or get-mode packet, or a set-mode payload bit above the low three.
pub proof fn lemma_wire_roundtrip(b0: u8, b1: u8)
    requires
        ControlPacket::decode(b0, b1) is Ok,
        (b0 / 16 == 1 || b0 / 16 == 2) ==> (b0 % 16) * 256 + b1 == 0,
        b0 / 16 == 3 ==> (b0 % 16) * 256 + b1 < 8,
    ensures
        ControlPacket::decode(b0, b1) matches Ok(p) && p.fits() && p.wire() == (b0, b1),
{
    let q = (b0 % 16) * 256 + b1;
    assert(q / 256 == b0 % 16);
    if b0 / 16 == 3 {
        DisplayMode::lemma_from_view(decode_mode(q as u16)->Ok_0);
    }
}

/// A row packet read from the wire names the row held in the low twelve bits
/// of the big-endian word: the low nibble of the first byte, then the second
/// byte.
pub proof fn lemma_decoded_row(b0: u8, b1: u8)
    ensures
        ControlPacket::decode(b0, b1) matches Ok(ControlPacket::ReadRowPixels(r)) ==> r == (b0 % 16)
            * 256 + b1,
        ControlPacket::decode(b0, b1) matches Ok(ControlPacket::WriteRowPixels(r)) ==> r == (b0
            % 16) * 256 + b1,
        ControlPacket::decode(b0, b1) matches Ok(ControlPacket::ReadRowChars(r)) ==> r == (b0 % 16)
            * 256 + b1,
        ControlPacket::decode(b0, b1) matches Ok(ControlPacket::WriteRowChars(r)) ==> r == (b0 % 16)
            * 256 + b1,
        b0 / 16 == 4 ==> ControlPacket::decode(b0, b1) == Ok::<_, ControlPacketError>(
            ControlPacket::ReadRowPixels(((b0 % 16) * 256 + b1) as u16),
        ),
        b0 / 16 == 5 ==> ControlPacket::decode(b0, b1) == Ok::<_, ControlPacketError>(
            ControlPacket::WriteRowPixels(((b0 % 16) * 256 + b1) as u16),
        ),
        b0 / 16 == 6 ==> ControlPacket::decode(b0, b1) == Ok::<_, ControlPacketError>(
            ControlPacket::ReadRowChars(((b0 % 16) * 256 + b1) as u16),
        ),
        b0 / 16 == 7 ==> ControlPacket::decode(b0, b1) == Ok::<_, ControlPacketError>(
            ControlPacket::WriteRowChars(((b0 % 16) * 256 + b1) as u16),
        ),
{
}

/// Wire bytes whose top nibble is 1 or 2 are a reset or get-mode packet;
/// top nibble 3 sets the mode numbered by bits 1 and 2 of the second byte,
/// with character cells when its bit 0 is set, and is refused when bits 1
/// and 2 are both set; any other top nibble outside 1 to 7 is refused.
pub proof fn lemma_decoded_other(b0: u8, b1: u8)
    ensures
        b0 / 16 == 1 ==> ControlPacket::decode(b0, b1) == Ok::<_, ControlPacketError>(
            ControlPacket::Reset,
        ),
        b0 / 16 == 2 ==> ControlPacket::decode(b0, b1) == Ok::<_, ControlPacketError>(
            ControlPacket::GetMode,
        ),
        (b0 / 16 == 0 || b0 / 16 >= 8) ==> ControlPacket::decode(b0, b1) == Err::<ControlPacket, _>(
            ControlPacketError::InvalidCode,
        ),
        b0 / 16 == 3 ==> (ControlPacket::decode(b0, b1) is Ok <==> (b1 / 2) % 4 != 3),
        b0 / 16 == 3 && (b1 / 2) % 4 == 3 ==> ControlPacket::decode(b0, b1) == Err::<
            ControlPacket,
            _,
        >(ControlPacketError::InvalidPayload),
        ControlPacket::decode(b0, b1) matches Ok(ControlPacket::SetMode(m)) ==> b0 / 16 == 3
            && m@.0.value() == ((b1 / 2) % 4) * 2 && m@.1 == (b1 % 2 == 1),
{
    let q = ((b0 % 16) * 256 + b1) as u16;
    assert((q / 2) % 4 == (b1 / 2) % 4);
    assert(q % 2 == b1 % 2);
    if b0 / 16 == 3 {
        if let Ok(v) = decode_mode(q) {
            DisplayMode::lemma_from_view(v);
        }
    }
}

/// A row packet goes on the wire as its code in the high nibble of the first
/// byte, then the row's twelve bits, big-endian.
pub proof fn lemma_row_wire(r: u16)
    requires
        r <= 0x0FFF,
    ensures
        ControlPacket::ReadRowPixels(r).wire() == ((0x40 + r / 256) as u8, (r % 256) as u8),
        ControlPacket::WriteRowPixels(r).wire() == ((0x50 + r / 256) as u8, (r % 256) as u8),
        ControlPacket::ReadRowChars(r).wire() == ((0x60 + r / 256) as u8, (r % 256) as u8),
        ControlPacket::WriteRowChars(r).wire() == ((0x70 + r / 256) as u8, (r % 256) as u8),
        ControlPacket::Reset.wire() == (0x10u8, 0u8),
        ControlPacket::GetMode.wire() == (0x20u8, 0u8),
{
}

/// A packet read from the wire is of the kind that the top four bits of its
/// first byte name.
pub proof fn lemma_decoded_code(b0: u8, b1: u8)
    requires
        ControlPacket::decode(b0, b1) is Ok,
    ensures
        ControlPacket::decode(b0, b1) matches Ok(p) && p.code_value() == b0 / 16,
{
}

/// The control code that `ControlCode::from` gives for a packet read from
/// the wire is the top four bits of its first byte.
proof fn lemma_control_code_from(b0: u8, b1: u8)
    requires
        ControlPacket::decode(b0, b1) is Ok,
    ensures
        ControlPacket::decode(b0, b1) matches Ok(p) && <ControlCode as vstd::std_specs::convert::FromSpec<
            &ControlPacket,
        >>::from_spec(&p).value() == b0 / 16,
{
    lemma_decoded_code(b0, b1);
}

/// Every packet read from the wire has a payload that fits in twelve bits,
/// so it can be packed again.
pub proof fn lemma_decoded_fits(b0: u8, b1: u8)
    requires
        ControlPacket::decode(b0, b1) is Ok,
    ensures
        ControlPacket::decode(b0, b1) matches Ok(p) && p.fits(),
{
    let q = (b0 % 16) * 256 + b1;
    if b0 / 16 == 3 {
        DisplayMode::lemma_from_view(decode_mode(q as u16)->Ok_0);
    }
}

} // verus!
