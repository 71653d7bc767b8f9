//! The fixed 64-byte file header: its fields, its layout and its checks.
use vstd::prelude::*;

use crate::cell::{be16, XrainDataBlock};
use crate::error::XrainError;

verus! {

/// Bytes in a header.
pub const HEADER_LEN: usize = 64;

/// The decoded file header.
///
/// The system status, the device number and the reserved region are read
/// past and not kept.
#[derive(Debug, Clone, Copy)]
pub struct XrainHeader {
    /// Code of the regional bureau that owns the area.
    pub owner: u8,
    /// Area and type field, kept as read.
    pub mesh_kind: u16,
    /// Observation date and time, raw.
    pub datetime: [u8; 16],
    pub response_status: u8,
    /// Number of data blocks the producer declares.
    pub block_num: u16,
    /// Byte count of the data the producer declares.
    pub data_size: u32,
    /// Boundary code of the south-west corner.
    pub bottom_left: u16,
    /// Boundary code of the north-east corner.
    pub top_right: u16,
}

/// A whole file: its header and its data blocks.
#[derive(Debug)]
pub struct XrainBinary<T> where T: Sized {
    pub form: XrainHeader,
    pub data: Vec<XrainDataBlock<T>>,
}

impl Default for XrainHeader {
    fn default() -> (r: Self)
        ensures
            r.owner == 71,
            r.mesh_kind == 0,
            r.datetime@ == Seq::new(16, |i: int| 0u8),
            r.response_status == 0,
            r.block_num == 0,
            r.data_size == 0,
            r.bottom_left == 0,
            r.top_right == 0,
    {
        let r = XrainHeader {
            owner: 71,
            mesh_kind: 0,
            datetime: [0u8; 16],
            response_status: 0,
            block_num: 0,
            data_size: 0,
            bottom_left: 0,
            top_right: 0,
        };
        assert(r.datetime@ =~= Seq::new(16, |i: int| 0u8));
        r
    }
}

/// The big-endian 32-bit value of four bytes.
pub open spec fn be32(b0: u8, b1: u8, b2: u8, b3: u8) -> u32 {
    (b0 as int * 0x1000000 + b1 as int * 0x10000 + b2 as int * 0x100 + b3 as int) as u32
}

/// Byte `k` (0 is the most significant) of the big-endian form of `v`,
/// which is `n` bytes wide.
pub open spec fn be_byte(v: int, n: int, k: int) -> u8 {
    ((v / pow256(n - 1 - k)) % 256) as u8
}

/// 256 to the power `k`, for the widths a header uses.
pub open spec fn pow256(k: int) -> int {
    if k <= 0 {
        1
    } else if k == 1 {
        0x100
    } else if k == 2 {
        0x10000
    } else {
        0x1000000
    }
}

/// The first failure that decoding `b` as a header meets, reading its
/// fields in order; `None` when `b` starts with a well-formed header.
pub open spec fn header_error(b: Seq<u8>) -> Option<XrainError> {
    if b.len() < 1 {
        Some(XrainError::InsufficientData { offset: 0 })
    } else if b[0] != 0xFD {
        Some(XrainError::FormatViolation { offset: 0 })
    } else if b.len() < 2 {
        Some(XrainError::InsufficientData { offset: 1 })
    } else if b.len() < 3 {
        Some(XrainError::InsufficientData { offset: 2 })
    } else if b[2] != 0x80 {
        Some(XrainError::FormatViolation { offset: 2 })
    } else if b.len() < 4 {
        Some(XrainError::InsufficientData { offset: 3 })
    } else if b[3] != 0x01 {
        Some(XrainError::FormatViolation { offset: 3 })
    } else if b.len() < 6 {
        Some(XrainError::InsufficientData { offset: 4 })
    } else if b.len() < 7 {
        Some(XrainError::InsufficientData { offset: 6 })
    } else if b[6] != 0x01 {
        Some(XrainError::FormatViolation { offset: 6 })
    } else if b.len() < 8 {
        Some(XrainError::InsufficientData { offset: 7 })
    } else if b[7] != 0x05 {
        Some(XrainError::FormatViolation { offset: 7 })
    } else if b.len() < HEADER_LEN {
        Some(XrainError::InsufficientData { offset: short_field_start(b.len() as int) })
    } else if b[62] != 0 || b[63] != 0 {
        Some(XrainError::FormatViolation { offset: 62 })
    } else {
        None
    }
}

/// Where the field starts whose read runs past `len` bytes, for a buffer
/// of 8 to 63 bytes.
pub open spec fn short_field_start(len: int) -> usize {
    if len < 24 {
        8
    } else if len < 40 {
        24
    } else if len < 41 {
        40
    } else if len < 42 {
        41
    } else if len < 44 {
        42
    } else if len < 48 {
        44
    } else if len < 50 {
        48
    } else if len < 52 {
        50
    } else if len < 62 {
        52
    } else {
        62
    }
}

/// `h` holds the fields that the header at the start of `b` carries.
pub open spec fn header_fields_match(h: XrainHeader, b: Seq<u8>) -> bool {
    &&& b.len() >= HEADER_LEN
    &&& h.owner == b[1]
    &&& h.mesh_kind == be16(b[4], b[5])
    &&& h.datetime@ == b.subrange(8, 24)
    &&& h.response_status == b[41]
    &&& h.block_num == be16(b[42], b[43])
    &&& h.data_size == be32(b[44], b[45], b[46], b[47])
    &&& h.bottom_left == be16(b[48], b[49])
    &&& h.top_right == be16(b[50], b[51])
}

/// The header at the start of `b` holds zeros where the decoder reads
/// past: system status, device number and reserved region.
pub open spec fn header_discards_zero(b: Seq<u8>) -> bool {
    &&& forall|i: int| 24 <= i < 41 ==> b[i] == 0
    &&& forall|i: int| 52 <= i < 62 ==> b[i] == 0
}

/// The 64 bytes that encode `h`, with zeros where the decoder reads past.
pub open spec fn header_bytes(h: XrainHeader) -> Seq<u8> {
    seq![
        0xFDu8,
        h.owner,
        0x80u8,
        0x01u8,
        be_byte(h.mesh_kind as int, 2, 0),
        be_byte(h.mesh_kind as int, 2, 1),
        0x01u8,
        0x05u8,
    ] + h.datetime@ + Seq::new(17, |i: int| 0u8) + seq![
        h.response_status,
        be_byte(h.block_num as int, 2, 0),
        be_byte(h.block_num as int, 2, 1),
        be_byte(h.data_size as int, 4, 0),
        be_byte(h.data_size as int, 4, 1),
        be_byte(h.data_size as int, 4, 2),
        be_byte(h.data_size as int, 4, 3),
        be_byte(h.bottom_left as int, 2, 0),
        be_byte(h.bottom_left as int, 2, 1),
        be_byte(h.top_right as int, 2, 0),
        be_byte(h.top_right as int, 2, 1),
    ] + Seq::new(12, |i: int| 0u8)
}

impl XrainHeader {
    /// The 64 bytes that encode this header, with zeros in the system
    /// status, device number and reserved region.
    pub fn to_bytes(&self) -> (r: Vec<u8>)
        ensures
            r@ == header_bytes(*self),
    {
        let mut r: Vec<u8> = Vec::new();
        r.push(0xFD);
        r.push(self.owner);
        r.push(0x80);
        r.push(0x01);
        r.push(((self.mesh_kind / 0x100) % 0x100) as u8);
        r.push((self.mesh_kind % 0x100) as u8);
        r.push(0x01);
        r.push(0x05);
        let mut i: usize = 0;
        while i < 16
            invariant
                i <= 16,
                r@ =~= header_bytes(*self).subrange(0, 8 + i),
            decreases 16 - i,
        {
            r.push(self.datetime[i]);
            i = i + 1;
        }
        let mut k: usize = 0;
        while k < 17
            invariant
                k <= 17,
                r@ =~= header_bytes(*self).subrange(0, 24 + k),
            decreases 17 - k,
        {
            r.push(0);
            k = k + 1;
        }
        r.push(self.response_status);
        r.push(((self.block_num / 0x100) % 0x100) as u8);
        r.push((self.block_num % 0x100) as u8);
        r.push(((self.data_size / 0x1000000) % 0x100) as u8);
        r.push(((self.data_size / 0x10000) % 0x100) as u8);
        r.push(((self.data_size / 0x100) % 0x100) as u8);
        r.push((self.data_size % 0x100) as u8);
        r.push(((self.bottom_left / 0x100) % 0x100) as u8);
        r.push((self.bottom_left % 0x100) as u8);
        r.push(((self.top_right / 0x100) % 0x100) as u8);
        r.push((self.top_right % 0x100) as u8);
        let mut k: usize = 0;
        while k < 12
            invariant
                k <= 12,
                r@ =~= header_bytes(*self).subrange(0, 52 + k),
            decreases 12 - k,
        {
            r.push(0);
            k = k + 1;
        }
        r
    }
}

proof fn lemma_be16_split(v: u16)
    ensures
        be16(be_byte(v as int, 2, 0), be_byte(v as int, 2, 1)) == v,
{
}

proof fn lemma_be16_join(hi: u8, lo: u8)
    ensures
        be_byte(be16(hi, lo) as int, 2, 0) == hi,
        be_byte(be16(hi, lo) as int, 2, 1) == lo,
{
}

proof fn lemma_be32_split(v: u32)
    ensures
        be32(
            be_byte(v as int, 4, 0),
            be_byte(v as int, 4, 1),
            be_byte(v as int, 4, 2),
            be_byte(v as int, 4, 3),
        ) == v,
{
}

proof fn lemma_be32_join(b0: u8, b1: u8, b2: u8, b3: u8)
    ensures
        be_byte(be32(b0, b1, b2, b3) as int, 4, 0) == b0,
        be_byte(be32(b0, b1, b2, b3) as int, 4, 1) == b1,
        be_byte(be32(b0, b1, b2, b3) as int, 4, 2) == b2,
        be_byte(be32(b0, b1, b2, b3) as int, 4, 3) == b3,
{
}

/// A buffer whose first byte is not the magic 0xFD is refused at offset 0,
/// whatever the other bytes hold.
pub proof fn lemma_bad_magic(b: Seq<u8>)
    requires
        b.len() >= 1,
        b[0] != 0xFD,
    ensures
        header_error(b) == Some(XrainError::FormatViolation { offset: 0 }),
{
}

/// Decoding the encoding of any header succeeds and gives back every
/// field of it.
pub proof fn lemma_header_encode_decode(h: XrainHeader)
    ensures
        header_bytes(h).len() == HEADER_LEN,
        header_error(header_bytes(h)) is None,
        header_fields_match(h, header_bytes(h)),
{
    let b = header_bytes(h);
    lemma_be16_split(h.mesh_kind);
    lemma_be16_split(h.block_num);
    lemma_be16_split(h.bottom_left);
    lemma_be16_split(h.top_right);
    lemma_be32_split(h.data_size);
    assert(h.datetime@ =~= b.subrange(8, 24));
}

/// Re-encoding the fields decoded from a well-formed header reproduces its
/// 64 bytes, wherever the bytes that the decoder reads past are zero.
pub proof fn lemma_header_reencode(b: Seq<u8>, h: XrainHeader)
    requires
        header_error(b) is None,
        header_fields_match(h, b),
        header_discards_zero(b),
    ensures
        header_bytes(h) == b.subrange(0, HEADER_LEN as int),
{
    lemma_be16_join(b[4], b[5]);
    lemma_be16_join(b[42], b[43]);
    lemma_be16_join(b[48], b[49]);
    lemma_be16_join(b[50], b[51]);
    lemma_be32_join(b[44], b[45], b[46], b[47]);
    let e = header_bytes(h);
    assert forall|i: int| 0 <= i < HEADER_LEN implies e[i] == b[i] by {
        if 8 <= i < 24 {
            assert(h.datetime@[i - 8] == b[i]);
        }
    }
    assert(e =~= b.subrange(0, HEADER_LEN as int));
}

} // verus!
