//! Decoder for the XRAIN radar rainfall mesh format.
//!
//! A file holds a fixed 64-byte header followed by runs of secondary-mesh
//! blocks; every block carries 40 x 40 packed cells. The decoder turns the
//! bytes into a two-level mesh hierarchy (primary mesh, then secondary mesh)
//! and can hand a stored block back as 40 rows of rainfall strengths.
use vstd::prelude::*;

pub mod error;
pub mod cursor;
pub mod cell;
pub mod header;
pub mod mesh;
pub mod parser;

pub use error::XrainError;
pub use cell::{CellComposite, XrainCell, XrainDataBlock};
pub use header::{XrainBinary, XrainHeader};
pub use mesh::{MeshCollection, PrimaryMesh, SecondaryMesh};
pub use parser::{XrainBlockHeader, XrainParser};

verus! {

/// Sum of two machine words.
pub fn add(left: usize, right: usize) -> (r: usize)
    requires
        left + right <= usize::MAX,
    ensures
        r == left + right,
{
    left + right
}

} // verus!
