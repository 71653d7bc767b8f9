//! The decoder: header, block-run headers, blocks and cells, read through
//! the byte cursor.
use vstd::prelude::*;

use crate::cell::{be16, cell_of, cells_of, CellComposite, XrainCell, CELLS_PER_BLOCK};
use crate::cursor::take_bytes;
use crate::error::XrainError;
use crate::header::{header_error, header_fields_match, XrainHeader, HEADER_LEN};
use crate::mesh::{inserted_all, MeshCollection, SecondaryMesh};

verus! {

/// Bytes in one block: 1600 cells of two bytes.
pub const BLOCK_LEN: usize = 3200;

/// The four bytes that open a run of blocks.
#[derive(Debug, Clone, Copy)]
pub struct XrainBlockHeader {
    /// High digits of the primary mesh code.
    pub lat: u8,
    /// Low digits of the primary mesh code.
    pub lon: u8,
    /// Starting column within the primary mesh (low nibble of the position
    /// byte).
    pub mesh_x: u8,
    /// Row within the primary mesh (high nibble of the position byte).
    pub mesh_y: u8,
    /// The run count as stored: one more than the number of blocks.
    pub block_num: u8,
}

/// Bytes that the run at the start of a buffer takes, from its stored run
/// count: the four-byte run header, then one block for each count past the
/// first.
pub open spec fn run_len(count: u8) -> int {
    4 + BLOCK_LEN * (count - 1)
}

/// The first failure that decoding a run at the start of `b` meets; `None`
/// when the whole run is there.
pub open spec fn run_error(b: Seq<u8>) -> Option<XrainError> {
    if b.len() < 4 {
        Some(XrainError::InsufficientData { offset: b.len() as usize })
    } else if b[3] == 0 {
        Some(XrainError::FormatViolation { offset: 3 })
    } else if b.len() < run_len(b[3]) {
        Some(XrainError::InsufficientData { offset: (4 + 2 * ((b.len() - 4) / 2)) as usize })
    } else {
        None
    }
}

/// `m` is block `i` of the run at the start of `b`. Its column is the
/// starting column plus `i`; every 8 columns carry into the next primary
/// mesh eastward; the row and the latitude never carry.
pub open spec fn run_block_matches(m: SecondaryMesh, b: Seq<u8>, i: int) -> bool {
    let col = (b[2] & 0x0Fu8) as int + i;
    &&& m.primary_y == b[0]
    &&& m.primary_x == b[1] as int + col / 8
    &&& m.x == col % 8
    &&& m.y == (b[2] & 0xF0u8) >> 4u8
    &&& m.xrain_cells@ == cells_of(b.subrange(4 + BLOCK_LEN * i, 4 + BLOCK_LEN * (i + 1)))
}

/// Within a run, a block whose column passes 7 (but not 15) lies one primary
/// mesh east of the run's start, 8 columns back.
pub proof fn lemma_run_carry(m: SecondaryMesh, b: Seq<u8>, i: int)
    requires
        run_block_matches(m, b, i),
        8 <= (b[2] & 0x0Fu8) as int + i < 16,
    ensures
        m.primary_x == b[1] + 1,
        m.x == (b[2] & 0x0Fu8) as int + i - 8,
        m.primary_y == b[0],
{
}

/// Within a run, a block whose column stays below 8 lies in the run's own
/// primary mesh, at that column.
pub proof fn lemma_run_no_carry(m: SecondaryMesh, b: Seq<u8>, i: int)
    requires
        run_block_matches(m, b, i),
        0 <= i,
        (b[2] & 0x0Fu8) as int + i < 8,
    ensures
        m.primary_x == b[1],
        m.x == (b[2] & 0x0Fu8) as int + i,
        m.primary_y == b[0],
{
}

proof fn lemma_short_run_offset(len: int, i: int)
    requires
        0 <= i,
        4 + BLOCK_LEN * i <= len,
    ensures
        (4 + BLOCK_LEN * i) + 2 * ((len - (4 + BLOCK_LEN * i)) / 2) == 4 + 2 * ((len - 4) / 2),
{
    let m = 1600 * i;
    assert(BLOCK_LEN * i == 2 * m);
    assert((len - 4 - 2 * m) / 2 == (len - 4) / 2 - m);
}

/// The first failure met decoding runs one after another from `pos` to the
/// end of `b`, with its offset counted from the start of `b`; `None` when
/// the runs fill the rest of `b` exactly.
pub open spec fn runs_error(b: Seq<u8>, pos: int) -> Option<XrainError>
    decreases b.len() - pos,
{
    if pos < 0 || pos >= b.len() {
        None
    } else {
        let s = b.subrange(pos, b.len() as int);
        match run_error(s) {
            Some(e) => Some(e.spec_shifted(pos)),
            None => runs_error(b, pos + run_len(s[3])),
        }
    }
}

/// The first failure met decoding `b` as a whole file: the header, then
/// runs up to the last byte.
pub open spec fn file_error(b: Seq<u8>) -> Option<XrainError> {
    match header_error(b) {
        Some(e) => Some(e),
        None => runs_error(b, HEADER_LEN as int),
    }
}

proof fn lemma_run_error_offset(b: Seq<u8>)
    ensures
        run_error(b) matches Some(e) ==> e.spec_offset() <= b.len(),
{
}

/// The decoder's state: the meshes decoded so far and the buffer they come
/// from.
#[derive(Debug)]
pub struct XrainParser {
    pub meshes: MeshCollection,
    pub bin_data: Vec<u8>,
}

impl Default for XrainParser {
    fn default() -> (r: Self)
        ensures
            r.meshes@ == Map::<u32, Map<u32, crate::mesh::SecondaryMesh>>::empty(),
            r.bin_data@ == Seq::<u8>::empty(),
    {
        XrainParser { meshes: MeshCollection::default(), bin_data: Vec::new() }
    }
}

impl XrainParser {
    /// Reads and checks the 64-byte header, field by field in file order.
    /// Fails at the first field that is short (`InsufficientData`) or holds
    /// the wrong constant (`FormatViolation`).
    pub fn read_header(bin_slice: &[u8]) -> (r: Result<(&[u8], XrainHeader), XrainError>)
        ensures
            header_error(bin_slice@) is None <==> r is Ok,
            match r {
                Ok(p) => header_fields_match(p.1, bin_slice@) && p.0@ == bin_slice@.subrange(
                    HEADER_LEN as int,
                    bin_slice@.len() as int,
                ),
                Err(e) => header_error(bin_slice@) == Some(e),
            },
    {
        let ghost b = bin_slice@;
        let input = bin_slice;
        assert(input@ =~= b.subrange(0, b.len() as int));
        let (input, magic) = match take_bytes(input, 1, 0) {
            Ok(p) => p,
            Err(e) => return Err(e),
        };
        assert(input@ =~= b.subrange(1, b.len() as int));
        if magic[0] != 0xFD {
            return Err(XrainError::FormatViolation { offset: 0 });
        }
        let (input, owner) = match take_bytes(input, 1, 1) {
            Ok(p) => p,
            Err(e) => return Err(e),
        };
        assert(input@ =~= b.subrange(2, b.len() as int));
        let (input, kind1) = match take_bytes(input, 1, 2) {
            Ok(p) => p,
            Err(e) => return Err(e),
        };
        assert(input@ =~= b.subrange(3, b.len() as int));
        if kind1[0] != 0x80 {
            return Err(XrainError::FormatViolation { offset: 2 });
        }
        let (input, kind2) = match take_bytes(input, 1, 3) {
            Ok(p) => p,
            Err(e) => return Err(e),
        };
        assert(input@ =~= b.subrange(4, b.len() as int));
        if kind2[0] != 0x01 {
            return Err(XrainError::FormatViolation { offset: 3 });
        }
        let (input, kind3) = match take_bytes(input, 2, 4) {
            Ok(p) => p,
            Err(e) => return Err(e),
        };
        assert(input@ =~= b.subrange(6, b.len() as int));
        let (input, header_kind) = match take_bytes(input, 1, 6) {
            Ok(p) => p,
            Err(e) => return Err(e),
        };
        assert(input@ =~= b.subrange(7, b.len() as int));
        if header_kind[0] != 0x01 {
            return Err(XrainError::FormatViolation { offset: 6 });
        }
        let (input, observation) = match take_bytes(input, 1, 7) {
            Ok(p) => p,
            Err(e) => return Err(e),
        };
        assert(input@ =~= b.subrange(8, b.len() as int));
        if observation[0] != 0x05 {
            return Err(XrainError::FormatViolation { offset: 7 });
        }
        let (input, datetime_bytes) = match take_bytes(input, 16, 8) {
            Ok(p) => p,
            Err(e) => return Err(e),
        };
        assert(input@ =~= b.subrange(24, b.len() as int));
        let (input, _status) = match take_bytes(input, 16, 24) {
            Ok(p) => p,
            Err(e) => return Err(e),
        };
        assert(input@ =~= b.subrange(40, b.len() as int));
        let (input, _device) = match take_bytes(input, 1, 40) {
            Ok(p) => p,
            Err(e) => return Err(e),
        };
        assert(input@ =~= b.subrange(41, b.len() as int));
        let (input, response) = match take_bytes(input, 1, 41) {
            Ok(p) => p,
            Err(e) => return Err(e),
        };
        assert(input@ =~= b.subrange(42, b.len() as int));
        let (input, blocks) = match take_bytes(input, 2, 42) {
            Ok(p) => p,
            Err(e) => return Err(e),
        };
        assert(input@ =~= b.subrange(44, b.len() as int));
        let (input, size) = match take_bytes(input, 4, 44) {
            Ok(p) => p,
            Err(e) => return Err(e),
        };
        assert(input@ =~= b.subrange(48, b.len() as int));
        let (input, bottom_left) = match take_bytes(input, 2, 48) {
            Ok(p) => p,
            Err(e) => return Err(e),
        };
        assert(input@ =~= b.subrange(50, b.len() as int));
        let (input, top_right) = match take_bytes(input, 2, 50) {
            Ok(p) => p,
            Err(e) => return Err(e),
        };
        assert(input@ =~= b.subrange(52, b.len() as int));
        let (input, _reserved) = match take_bytes(input, 10, 52) {
            Ok(p) => p,
            Err(e) => return Err(e),
        };
        assert(input@ =~= b.subrange(62, b.len() as int));
        let (input, trailer) = match take_bytes(input, 2, 62) {
            Ok(p) => p,
            Err(e) => return Err(e),
        };
        assert(input@ =~= b.subrange(64, b.len() as int));
        if trailer[0] != 0 || trailer[1] != 0 {
            return Err(XrainError::FormatViolation { offset: 62 });
        }
        let mut datetime: [u8; 16] = [0u8; 16];
        let mut k: usize = 0;
        while k < 16
            invariant
                k <= 16,
                datetime@.len() == 16,
                datetime@.subrange(0, k as int) =~= b.subrange(8, 8 + k),
                b.len() >= HEADER_LEN,
                datetime_bytes@ == b.subrange(8, 24),
            decreases 16 - k,
        {
            datetime[k] = datetime_bytes[k];
            k = k + 1;
        }
        assert(datetime@ =~= datetime@.subrange(0, 16));
        let header = XrainHeader {
            owner: owner[0],
            mesh_kind: (kind3[0] as u16) * 0x100 + kind3[1] as u16,
            datetime,
            response_status: response[0],
            block_num: (blocks[0] as u16) * 0x100 + blocks[1] as u16,
            data_size: (size[0] as u32) * 0x1000000 + (size[1] as u32) * 0x10000 + (size[2] as u32)
                * 0x100 + size[3] as u32,
            bottom_left: (bottom_left[0] as u16) * 0x100 + bottom_left[1] as u16,
            top_right: (top_right[0] as u16) * 0x100 + top_right[1] as u16,
        };
        Ok((input, header))
    }

    /// Reads one cell: a big-endian 16-bit value split into quality and
    /// strength. Fails with `InsufficientData` at offset 0 when fewer than
    /// two bytes remain.
    pub fn read_cell(input: &[u8]) -> (r: Result<(&[u8], XrainCell<u16>), XrainError>)
        ensures
            input@.len() >= 2 <==> r is Ok,
            match r {
                Ok(p) => p.1 == cell_of(be16(input@[0], input@[1])) && p.0@ == input@.subrange(
                    2,
                    input@.len() as int,
                ),
                Err(e) => e == XrainError::InsufficientData { offset: 0 },
            },
    {
        let (rest, t) = match take_bytes(input, 2, 0) {
            Ok(p) => p,
            Err(e) => return Err(e),
        };
        let v: u16 = (t[0] as u16) * 0x100 + t[1] as u16;
        Ok((rest, crate::cell::decode_cell(v)))
    }

    /// Reads one block of 1600 cells in row-major order. Fails with
    /// `InsufficientData` at the first cell that does not fit.
    pub fn read_single_block(input: &[u8]) -> (r: Result<(&[u8], CellComposite), XrainError>)
        ensures
            input@.len() >= BLOCK_LEN <==> r is Ok,
            match r {
                Ok(p) => p.1@ == cells_of(input@.subrange(0, BLOCK_LEN as int)) && p.0@
                    == input@.subrange(BLOCK_LEN as int, input@.len() as int),
                Err(e) => e == XrainError::InsufficientData {
                    offset: (2 * (input@.len() / 2)) as usize,
                },
            },
    {
        let mut cellcmp = CellComposite::default();
        let mut rest = input;
        let mut k: usize = 0;
        while k < CELLS_PER_BLOCK
            invariant
                k <= CELLS_PER_BLOCK,
                2 * k <= input@.len(),
                rest@ == input@.subrange(2 * k as int, input@.len() as int),
                cellcmp@ == cells_of(input@.subrange(0, 2 * k as int)),
                cellcmp@.len() == k,
            decreases CELLS_PER_BLOCK - k,
        {
            let (next, c) = match XrainParser::read_cell(rest) {
                Ok(p) => p,
                Err(_) => {
                    return Err(XrainError::InsufficientData { offset: 2 * k });
                },
            };
            match cellcmp.push(c) {
                Ok(()) => {},
                Err(e) => {
                    return Err(e);
                },
            }
            proof {
                let s = input@;
                assert(cells_of(s.subrange(0, 2 * k + 2)) =~= cells_of(s.subrange(0, 2 * k)).push(c));
                assert(next@ =~= s.subrange(2 * k + 2, s.len() as int));
            }
            rest = next;
            k = k + 1;
        }
        Ok((rest, cellcmp))
    }

    /// Reads the four bytes that open a run: latitude, longitude, position
    /// (row in the high nibble, starting column in the low nibble) and the
    /// stored run count. Fails with `InsufficientData` at the first byte
    /// that is missing.
    pub fn read_block_header(input: &[u8]) -> (r: Result<(&[u8], XrainBlockHeader), XrainError>)
        ensures
            input@.len() >= 4 <==> r is Ok,
            match r {
                Ok(p) => {
                    &&& p.1.lat == input@[0]
                    &&& p.1.lon == input@[1]
                    &&& p.1.mesh_x == input@[2] & 0x0Fu8
                    &&& p.1.mesh_y == (input@[2] & 0xF0u8) >> 4u8
                    &&& p.1.block_num == input@[3]
                    &&& p.0@ == input@.subrange(4, input@.len() as int)
                },
                Err(e) => e == XrainError::InsufficientData { offset: input@.len() as usize },
            },
    {
        let (rest, lat) = match take_bytes(input, 1, 0) {
            Ok(p) => p,
            Err(e) => return Err(e),
        };
        let (rest, lon) = match take_bytes(rest, 1, 1) {
            Ok(p) => p,
            Err(e) => return Err(e),
        };
        let (rest, grid_position) = match take_bytes(rest, 1, 2) {
            Ok(p) => p,
            Err(e) => return Err(e),
        };
        let (rest, count) = match take_bytes(rest, 1, 3) {
            Ok(p) => p,
            Err(e) => return Err(e),
        };
        let grid_position: u8 = grid_position[0];
        let header = XrainBlockHeader {
            lat: lat[0],
            lon: lon[0],
            mesh_x: grid_position & 0x0F,
            mesh_y: (grid_position & 0xF0) >> 4,
            block_num: count[0],
        };
        assert(rest@ =~= input@.subrange(4, input@.len() as int));
        Ok((rest, header))
    }
    /// Reads one run: its four-byte header, then `count - 1` blocks, each
    /// placed one column east of the one before. Fails with
    /// `FormatViolation` at offset 3 when the stored count is zero, and with
    /// `InsufficientData` where the bytes run out.
    pub fn read_sequential_block<'a>(&self, input: &'a [u8]) -> (r: Result<
        (&'a [u8], Vec<SecondaryMesh>),
        XrainError,
    >)
        ensures
            run_error(input@) is None <==> r is Ok,
            match r {
                Ok(p) => {
                    &&& p.0@ == input@.subrange(run_len(input@[3]), input@.len() as int)
                    &&& p.1@.len() == input@[3] - 1
                    &&& forall|i: int|
                        0 <= i < p.1@.len() ==> run_block_matches(#[trigger] p.1@[i], input@, i)
                },
                Err(e) => run_error(input@) == Some(e),
            },
    {
        let (rest, bh) = match XrainParser::read_block_header(input) {
            Ok(p) => p,
            Err(e) => return Err(e),
        };
        if bh.block_num == 0 {
            return Err(XrainError::FormatViolation { offset: 3 });
        }
        let block_num: u8 = bh.block_num - 1;
        let mut rest = rest;
        let mut pos: usize = 4;
        let mut v_smesh: Vec<SecondaryMesh> = Vec::new();
        let mut i: u8 = 0;
        while i < block_num
            invariant
                block_num == input@[3] - 1,
                input@.len() >= 4,
                bh.lat == input@[0],
                bh.lon == input@[1],
                bh.mesh_x == input@[2] & 0x0Fu8,
                bh.mesh_y == (input@[2] & 0xF0u8) >> 4u8,
                i <= block_num,
                pos == 4 + BLOCK_LEN * i,
                pos <= input@.len(),
                rest@ == input@.subrange(pos as int, input@.len() as int),
                v_smesh@.len() == i,
                forall|k: int|
                    0 <= k < i ==> run_block_matches(#[trigger] v_smesh@[k], input@, k),
            decreases block_num - i,
        {
            let current: u16 = bh.mesh_x as u16 + i as u16;
            let primary_x: u16 = bh.lon as u16 + current / 8;
            let (next, cells) = match XrainParser::read_single_block(rest) {
                Ok(p) => p,
                Err(e) => {
                    proof {
                        lemma_short_run_offset(input@.len() as int, i as int);
                    }
                    return Err(e.shifted(pos));
                },
            };
            proof {
                assert(cells@ =~= cells_of(
                    input@.subrange(4 + BLOCK_LEN * i, 4 + BLOCK_LEN * (i + 1)),
                ));
                assert(next@ =~= input@.subrange(pos + BLOCK_LEN, input@.len() as int));
            }
            let smesh = SecondaryMesh::new(primary_x, bh.lat, (current % 8) as u8, bh.mesh_y, cells);
            v_smesh.push(smesh);
            rest = next;
            pos = pos + BLOCK_LEN;
            i = i + 1;
        }
        Ok((rest, v_smesh))
    }

    /// Decodes one run and stores its blocks in `meshes`. The whole run is
    /// decoded before anything is stored, so on failure `meshes` is left as
    /// it was.
    pub fn decode_run<'a>(&mut self, input: &'a [u8]) -> (r: Result<&'a [u8], XrainError>)
        ensures
            run_error(input@) is None <==> r is Ok,
            final(self).bin_data == old(self).bin_data,
            match r {
                Ok(rest) => {
                    &&& rest@ == input@.subrange(run_len(input@[3]), input@.len() as int)
                    &&& exists|v: Seq<SecondaryMesh>|
                        {
                            &&& v.len() == input@[3] - 1
                            &&& forall|i: int|
                                0 <= i < v.len() ==> run_block_matches(#[trigger] v[i], input@, i)
                            &&& final(self).meshes@ == #[trigger] inserted_all(old(self).meshes@, v)
                        }
                },
                Err(e) => run_error(input@) == Some(e) && final(self).meshes@ == old(self).meshes@,
            },
    {
        let (rest, run) = match self.read_sequential_block(input) {
            Ok(p) => p,
            Err(e) => return Err(e),
        };
        let ghost v = run@;
        self.meshes.insert_all(run);
        assert(final(self).meshes@ == inserted_all(old(self).meshes@, v));
        Ok(rest)
    }

    /// Decodes a whole file: the header, then runs one after another until
    /// the bytes end, each run stored in `meshes` once it is complete.
    /// Returns the header, or the first failure; runs stored before a
    /// failure stay stored.
    pub fn decode(&mut self, input: &[u8]) -> (r: Result<XrainHeader, XrainError>)
        ensures
            file_error(input@) is None <==> r is Ok,
            final(self).bin_data == old(self).bin_data,
            match r {
                Ok(h) => header_fields_match(h, input@),
                Err(e) => file_error(input@) == Some(e),
            },
    {
        let (rest, header) = match XrainParser::read_header(input) {
            Ok(p) => p,
            Err(e) => return Err(e),
        };
        let n: usize = input.len();
        let mut rest = rest;
        let mut pos: usize = HEADER_LEN;
        while rest.len() > 0
            invariant
                input@.len() == n,
                pos <= input@.len(),
                rest@ == input@.subrange(pos as int, input@.len() as int),
                file_error(input@) == runs_error(input@, pos as int),
                self.bin_data == old(self).bin_data,
            decreases rest@.len(),
        {
            match self.decode_run(rest) {
                Ok(next) => {
                    assert(next@ =~= input@.subrange(
                        pos + run_len(rest@[3]),
                        input@.len() as int,
                    ));
                    pos = pos + (rest.len() - next.len());
                    rest = next;
                },
                Err(e) => {
                    proof {
                        lemma_run_error_offset(rest@);
                    }
                    return Err(e.shifted(pos));
                },
            }
        }
        Ok(header)
    }
}

} // verus!
