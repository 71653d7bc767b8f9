//! Packed cells and the fixed-capacity block that holds them.
use vstd::prelude::*;

use crate::error::XrainError;

verus! {

/// Cells in one block: 40 rows of 40.
pub const CELLS_PER_BLOCK: usize = 1600;

/// One measurement: a quality flag and a rainfall strength.
#[derive(Debug, Clone, Copy)]
pub struct XrainCell<T> {
    pub quality: T,
    pub strength: T,
}

/// A block of cells of any value type, with no capacity bound.
#[derive(Debug)]
pub struct XrainDataBlock<T> {
    pub cells: Vec<XrainCell<T>>,
}

/// The big-endian 16-bit value of two bytes.
pub open spec fn be16(hi: u8, lo: u8) -> u16 {
    (hi as int * 256 + lo as int) as u16
}

/// The cell a raw 16-bit value packs: the top 4 bits are the quality, the
/// bottom 12 bits the strength, both kept in place.
pub open spec fn cell_of(v: u16) -> XrainCell<u16> {
    XrainCell { quality: v & 0xF000u16, strength: v & 0x0FFFu16 }
}

/// The cells packed in `b`, two bytes each, in order (a trailing odd byte is
/// ignored).
pub open spec fn cells_of(b: Seq<u8>) -> Seq<XrainCell<u16>> {
    Seq::new((b.len() / 2) as nat, |k: int| cell_of(be16(b[2 * k], b[2 * k + 1])))
}

/// Splits a raw 16-bit value into its cell.
pub fn decode_cell(v: u16) -> (r: XrainCell<u16>)
    ensures
        r == cell_of(v),
{
    XrainCell { quality: v & 0xF000u16, strength: v & 0x0FFFu16 }
}

/// The cells of one block, in row-major order. Only `push` adds cells, and
/// it refuses a 1601st.
#[derive(Debug)]
pub struct CellComposite {
    cells: Vec<XrainCell<u16>>,
}

impl View for CellComposite {
    type V = Seq<XrainCell<u16>>;

    closed spec fn view(&self) -> Seq<XrainCell<u16>> {
        self.cells@
    }
}

impl Default for CellComposite {
    fn default() -> (r: Self)
        ensures
            r@ == Seq::<XrainCell<u16>>::empty(),
    {
        CellComposite { cells: Vec::new() }
    }
}

impl CellComposite {
    /// Appends a cell; fails with `CapacityExceeded`, leaving the block as it
    /// was, when it already holds 1600.
    pub fn push(&mut self, v: XrainCell<u16>) -> (r: Result<(), XrainError>)
        ensures
            old(self)@.len() < CELLS_PER_BLOCK ==> r is Ok && final(self)@ == old(self)@.push(v),
            old(self)@.len() >= CELLS_PER_BLOCK ==> r == Err::<(), XrainError>(
                XrainError::CapacityExceeded,
            ) && final(self)@ == old(self)@,
    {
        if self.cells.len() < CELLS_PER_BLOCK {
            self.cells.push(v);
            Ok(())
        } else {
            Err(XrainError::CapacityExceeded)
        }
    }

    /// Number of cells held.
    pub fn len(&self) -> (r: usize)
        ensures
            r == self@.len(),
    {
        self.cells.len()
    }

    /// The cell at position `i`.
    pub fn get(&self, i: usize) -> (r: XrainCell<u16>)
        requires
            i < self@.len(),
        ensures
            r == self@[i as int],
    {
        self.cells[i]
    }
}

} // verus!
