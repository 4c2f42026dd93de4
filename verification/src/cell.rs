//! Character cells: the contents of the character buffer, and their packed
//! form in character data packets.
use vstd::prelude::*;

verus! {

/// The attribute bit that draws a cell with foreground and background
/// swapped.
pub const ATTR_INVERT: u8 = 0x01;

/// Attributes of a character cell, as the bits of one byte.
#[derive(Debug, Clone, Copy, PartialEq, Eq, Structural)]
pub struct CharAttrs {
    pub bits: u8,
}

/// The invert bit read as arithmetic.
proof fn lemma_invert_bit(bits: u8)
    by (bit_vector)
    ensures
        (bits & 0x01u8 != 0) == (bits % 2 == 1),
{
}

impl CharAttrs {
    pub open spec fn spec_contains_invert(&self) -> bool {
        self.bits % 2 == 1
    }

    /// Whether the invert attribute is set.
    #[verifier::when_used_as_spec(spec_contains_invert)]
    pub fn contains_invert(&self) -> (b: bool)
        ensures
            b == self.spec_contains_invert(),
    {
        proof {
            lemma_invert_bit(self.bits);
        }
        self.bits & ATTR_INVERT != 0
    }
}

/// One cell of the character buffer: a glyph of the IBM437 font sheet and
/// its attributes.
#[derive(Debug, Clone, Copy, PartialEq, Eq, Structural)]
pub struct CharCell {
    pub glyph: u8,
    pub attrs: CharAttrs,
}

/// The empty cell that fills the character buffer after a reset.
pub open spec fn blank_cell() -> CharCell {
    CharCell { glyph: 0, attrs: CharAttrs { bits: 0 } }
}

impl CharCell {
    /// A cell showing `glyph` with attribute bits `attrs`.
    pub fn new(glyph: u8, attrs: u8) -> (cell: Self)
        ensures
            cell == (CharCell { glyph, attrs: CharAttrs { bits: attrs } }),
    {
        CharCell { glyph, attrs: CharAttrs { bits: attrs } }
    }

    /// The empty cell: glyph 0, no attributes.
    pub fn blank() -> (cell: Self)
        ensures
            cell == blank_cell(),
    {
        CharCell { glyph: 0, attrs: CharAttrs { bits: 0 } }
    }
}

/// Bytes per cell in a character data packet.
pub const CELL_BYTES: usize = 2;

/// The packed form of `cells` in a character data packet: each cell as its
/// glyph byte followed by its attribute byte.
pub open spec fn cells_to_bytes(cells: Seq<CharCell>) -> Seq<u8> {
    Seq::new(
        cells.len() * 2,
        |i: int|
            if i % 2 == 0 {
                cells[i / 2].glyph
            } else {
                cells[i / 2].attrs.bits
            },
    )
}

/// The cells packed in `bytes`: byte `2 * i` is the glyph and byte
/// `2 * i + 1` the attributes of cell `i`.
pub open spec fn bytes_to_cells(bytes: Seq<u8>) -> Seq<CharCell> {
    Seq::new(
        bytes.len() / 2,
        |i: int| CharCell { glyph: bytes[2 * i], attrs: CharAttrs { bits: bytes[2 * i + 1] } },
    )
}

/// Pack `cells` into the bytes of a character data packet.
pub fn pack_cells(cells: &[CharCell]) -> (bytes: Vec<u8>)
    requires
        cells@.len() * 2 <= usize::MAX,
    ensures
        bytes@ == cells_to_bytes(cells@),
        bytes@.len() == cells@.len() * 2,
        forall|i: int|
            0 <= i < cells@.len() ==> bytes@[2 * i] == #[trigger] cells@[i].glyph && bytes@[2 * i
                + 1] == cells@[i].attrs.bits,
{
    let mut bytes: Vec<u8> = Vec::new();
    let mut i: usize = 0;
    while i < cells.len()
        invariant
            i <= cells@.len(),
            cells@.len() * 2 <= usize::MAX,
            bytes@ == cells_to_bytes(cells@.subrange(0, i as int)),
        decreases cells@.len() - i,
    {
        bytes.push(cells[i].glyph);
        bytes.push(cells[i].attrs.bits);
        i += 1;
        assert(bytes@ =~= cells_to_bytes(cells@.subrange(0, i as int)));
    }
    assert(cells@.subrange(0, i as int) =~= cells@);
    proof {
        lemma_cells_layout(cells@);
    }
    bytes
}

/// Unpack the cells of a character data packet.
pub fn unpack_cells(bytes: &[u8]) -> (cells: Vec<CharCell>)
    requires
        bytes@.len() % 2 == 0,
    ensures
        cells@ == bytes_to_cells(bytes@),
        cells@.len() * 2 == bytes@.len(),
        forall|i: int|
            0 <= i < cells@.len() ==> #[trigger] cells@[i] == (CharCell {
                glyph: bytes@[2 * i],
                attrs: CharAttrs { bits: bytes@[2 * i + 1] },
            }),
{
    let mut cells: Vec<CharCell> = Vec::new();
    let len = bytes.len();
    let n = len / 2;
    let mut i: usize = 0;
    while i < n
        invariant
            i <= n,
            len == bytes@.len(),
            n == len / 2,
            len % 2 == 0,
            cells@ == bytes_to_cells(bytes@).subrange(0, i as int),
        decreases n - i,
    {
        assert(2 * i + 1 < bytes@.len());
        cells.push(CharCell { glyph: bytes[2 * i], attrs: CharAttrs { bits: bytes[2 * i + 1] } });
        i += 1;
        assert(cells@ =~= bytes_to_cells(bytes@).subrange(0, i as int));
    }
    assert(bytes_to_cells(bytes@).subrange(0, n as int) =~= bytes_to_cells(bytes@));
    proof {
        lemma_bytes_layout(bytes@);
    }
    cells
}

/// A packed cell is its glyph byte followed by its attribute byte, cell
/// after cell, and nothing else.
pub proof fn lemma_cells_layout(cells: Seq<CharCell>)
    ensures
        cells_to_bytes(cells).len() == cells.len() * 2,
        forall|i: int|
            0 <= i < cells.len() ==> cells_to_bytes(cells)[2 * i] == #[trigger] cells[i].glyph
                && cells_to_bytes(cells)[2 * i + 1] == cells[i].attrs.bits,
{
    assert forall|i: int| 0 <= i < cells.len() implies cells_to_bytes(cells)[2 * i]
        == #[trigger] cells[i].glyph && cells_to_bytes(cells)[2 * i + 1] == cells[i].attrs.bits by {
        assert((2 * i) / 2 == i && (2 * i) % 2 == 0);
        assert((2 * i + 1) / 2 == i && (2 * i + 1) % 2 == 1);
    }
}

/// Cell `i` of a packet's bytes is made of byte `2 * i` as glyph and byte
/// `2 * i + 1` as attributes; a trailing odd byte is no cell.
pub proof fn lemma_bytes_layout(bytes: Seq<u8>)
    ensures
        bytes_to_cells(bytes).len() * 2 + bytes.len() % 2 == bytes.len(),
        forall|i: int|
            0 <= i < bytes_to_cells(bytes).len() ==> #[trigger] bytes_to_cells(bytes)[i] == (CharCell {
                glyph: bytes[2 * i],
                attrs: CharAttrs { bits: bytes[2 * i + 1] },
            }),
{
}

/// A cell is drawn inverted exactly when bit 0 (`ATTR_INVERT`) of its
/// attribute byte is set, whatever the other bits hold.
pub proof fn lemma_invert_is_bit0(a: CharAttrs)
    ensures
        a.spec_contains_invert() <==> (a.bits & ATTR_INVERT != 0),
        forall|b: CharAttrs|
            (#[trigger] (b.bits & ATTR_INVERT) == a.bits & ATTR_INVERT) ==> (
            b.spec_contains_invert() == a.spec_contains_invert()),
{
    lemma_invert_bit(a.bits);
    assert forall|b: CharAttrs|
        (#[trigger] (b.bits & ATTR_INVERT) == a.bits & ATTR_INVERT) implies (
        b.spec_contains_invert() == a.spec_contains_invert()) by {
        lemma_invert_bit(b.bits);
    }
}

/// Packed cells unpack to themselves.
pub proof fn lemma_cells_roundtrip(cells: Seq<CharCell>)
    ensures
        bytes_to_cells(cells_to_bytes(cells)) == cells,
{
    assert(bytes_to_cells(cells_to_bytes(cells)) =~= cells);
}

/// An even number of bytes unpacks to cells that pack back to those bytes.
pub proof fn lemma_bytes_roundtrip(bytes: Seq<u8>)
    requires
        bytes.len() % 2 == 0,
    ensures
        cells_to_bytes(bytes_to_cells(bytes)) == bytes,
{
    let c = bytes_to_cells(bytes);
    assert forall|i: int| 0 <= i < bytes.len() implies #[trigger] cells_to_bytes(c)[i] == bytes[i] by {
        if i % 2 == 0 {
            assert(2 * (i / 2) == i);
        } else {
            assert(2 * (i / 2) + 1 == i);
        }
    }
    assert(cells_to_bytes(c) =~= bytes);
}

} // verus!
