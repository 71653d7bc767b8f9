use xrain::cell::decode_cell;
use xrain::cursor::take_bytes;
use xrain::{
    add, CellComposite, MeshCollection, SecondaryMesh, XrainCell, XrainError, XrainHeader,
    XrainParser,
};

fn header_fixture() -> Vec<u8> {
    let mut b: Vec<u8> = vec![0xFD, 0x47, 0x80, 0x01, 0x12, 0x34, 0x01, 0x05];
    for i in 0..16u8 {
        b.push(0x20 + i);
    }
    for _ in 0..17 {
        b.push(0);
    }
    b.push(0x07);
    b.extend_from_slice(&[0x00, 0x10]);
    b.extend_from_slice(&[0x00, 0x01, 0x02, 0x03]);
    b.extend_from_slice(&[0x53, 0x39]);
    b.extend_from_slice(&[0x54, 0x40]);
    for _ in 0..12 {
        b.push(0);
    }
    assert_eq!(b.len(), 64);
    b
}

fn run_fixture(lat: u8, lon: u8, pos: u8, count: u8) -> Vec<u8> {
    let mut b = vec![lat, lon, pos, count];
    for blk in 0..(count as usize).saturating_sub(1) {
        for k in 0..1600usize {
            let v = ((blk * 100 + k) % 4096) as u16 | 0x1000;
            b.push((v >> 8) as u8);
            b.push((v & 0xFF) as u8);
        }
    }
    b
}

fn counting_block() -> CellComposite {
    let mut c = CellComposite::default();
    for k in 0..1600u16 {
        c.push(XrainCell { quality: 0, strength: k }).unwrap();
    }
    c
}

#[test]
fn it_works() {
    let result = add(2, 2);
    assert_eq!(result, 4);
}

#[test]
fn test_header_read() {
    let raw = header_fixture();
    let input = raw.as_slice();
    let (input, extracted) = take_bytes(input, 1, 0).unwrap();
    assert_eq!(extracted, &[0xFD]);
    let (input, _extracted) = take_bytes(input, 1, 1).unwrap();
    let (input, extracted) = take_bytes(input, 1, 2).unwrap();
    assert_eq!(extracted, &[0x80]);
    let (input, extracted) = take_bytes(input, 1, 3).unwrap();
    assert_eq!(extracted, &[0x01]);
    let (input, _extracted) = take_bytes(input, 2, 4).unwrap();
    let (input, extracted) = take_bytes(input, 1, 6).unwrap();
    assert_eq!(extracted, &[0x01]);
    let (input, extracted) = take_bytes(input, 1, 7).unwrap();
    assert_eq!(extracted, &[0x05]);
    let (input, _extracted) = take_bytes(input, 16, 8).unwrap();
    let (input, _extracted) = take_bytes(input, 16, 24).unwrap();
    let (input, _extracted) = take_bytes(input, 1, 40).unwrap();
    let (input, _extracted) = take_bytes(input, 1, 41).unwrap();
    let (input, extracted) = take_bytes(input, 2, 42).unwrap();
    assert_eq!(u16::from_be_bytes([extracted[0], extracted[1]]), 16);
    let (input, extracted) = take_bytes(input, 4, 44).unwrap();
    assert_eq!(
        u32::from_be_bytes([extracted[0], extracted[1], extracted[2], extracted[3]]),
        0x0001_0203
    );
    let (input, _extracted) = take_bytes(input, 2, 48).unwrap();
    let (input, _extracted) = take_bytes(input, 2, 50).unwrap();
    let (input, _extracted) = take_bytes(input, 10, 52).unwrap();
    let (input, extracted) = take_bytes(input, 2, 62).unwrap();
    assert_eq!(extracted, &[0x00, 0x00]);
    assert!(input.is_empty());
}

#[test]
fn test_read_single_block() {
    let mut data = header_fixture();
    data.extend(run_fixture(53, 39, 0x21, 2));
    let (input, header) = XrainParser::read_header(data.as_slice()).unwrap();
    let (input, bheader) = XrainParser::read_block_header(input).unwrap();
    assert_eq!(header.owner, 0x47);
    assert_eq!((bheader.lat, bheader.lon, bheader.mesh_x, bheader.mesh_y), (53, 39, 1, 2));
    let (input, cells) = XrainParser::read_single_block(input).unwrap();
    assert!(input.is_empty());
    assert_eq!(cells.len(), 1600);
    assert_eq!(cells.get(5).strength, 5);
    assert_eq!(cells.get(5).quality, 0x1000);
}

#[test]
fn header_fields_are_decoded() {
    let data = header_fixture();
    let mut buf = data.clone();
    buf.extend_from_slice(&[9, 9]);
    let (rest, h) = XrainParser::read_header(buf.as_slice()).unwrap();
    assert_eq!(rest, &[9, 9]);
    assert_eq!(h.owner, 0x47);
    assert_eq!(h.mesh_kind, 0x1234);
    assert_eq!(h.datetime[0], 0x20);
    assert_eq!(h.datetime[15], 0x2F);
    assert_eq!(h.response_status, 7);
    assert_eq!(h.block_num, 16);
    assert_eq!(h.data_size, 0x0001_0203);
    assert_eq!(h.bottom_left, 0x5339);
    assert_eq!(h.top_right, 0x5440);
}

#[test]
fn header_round_trip() {
    let data = header_fixture();
    let (_, h) = XrainParser::read_header(data.as_slice()).unwrap();
    assert_eq!(h.to_bytes(), data);
}

#[test]
fn header_encode_then_decode() {
    let h = XrainHeader {
        owner: 3,
        mesh_kind: 0xBEEF,
        datetime: [7; 16],
        response_status: 1,
        block_num: 300,
        data_size: 0xDEAD_BEEF,
        bottom_left: 1,
        top_right: 0xFFFF,
    };
    let bytes = h.to_bytes();
    assert_eq!(bytes.len(), 64);
    let (_, d) = XrainParser::read_header(bytes.as_slice()).unwrap();
    assert_eq!(d.mesh_kind, 0xBEEF);
    assert_eq!(d.datetime, [7; 16]);
    assert_eq!(d.block_num, 300);
    assert_eq!(d.data_size, 0xDEAD_BEEF);
    assert_eq!(d.top_right, 0xFFFF);
}

#[test]
fn header_bad_magic() {
    let mut data = header_fixture();
    data[0] = 0xFC;
    assert_eq!(
        XrainParser::read_header(data.as_slice()).unwrap_err(),
        XrainError::FormatViolation { offset: 0 }
    );
}

#[test]
fn header_bad_constants() {
    let base = header_fixture();
    for (at, offset) in [(2usize, 2usize), (3, 3), (6, 6), (7, 7), (62, 62), (63, 62)] {
        let mut data = base.clone();
        data[at] ^= 0x40;
        assert_eq!(
            XrainParser::read_header(data.as_slice()).unwrap_err(),
            XrainError::FormatViolation { offset }
        );
    }
}

#[test]
fn header_short_buffers() {
    let base = header_fixture();
    for (len, offset) in [(0usize, 0usize), (1, 1), (5, 4), (20, 8), (40, 40), (45, 44), (63, 62)] {
        assert_eq!(
            XrainParser::read_header(&base[..len]).unwrap_err(),
            XrainError::InsufficientData { offset }
        );
    }
}

#[test]
fn header_default() {
    let h = XrainHeader::default();
    assert_eq!(h.owner, 71);
    assert_eq!(h.datetime, [0; 16]);
    assert_eq!(h.block_num, 0);
}

#[test]
fn cell_decode_splits_fields() {
    let c = decode_cell(0xF123);
    assert_eq!(c.quality, 0xF000);
    assert_eq!(c.strength, 0x0123);
    assert_eq!(c.strength, 291);
    let (rest, c) = XrainParser::read_cell(&[0xF1, 0x23, 0xAA]).unwrap();
    assert_eq!((c.quality, c.strength), (0xF000, 291));
    assert_eq!(rest, &[0xAA]);
}

#[test]
fn cell_decode_short() {
    assert_eq!(
        XrainParser::read_cell(&[0xF1]).unwrap_err(),
        XrainError::InsufficientData { offset: 0 }
    );
}

#[test]
fn block_short_reports_offset() {
    let data = vec![0u8; 3199];
    assert_eq!(
        XrainParser::read_single_block(&data).unwrap_err(),
        XrainError::InsufficientData { offset: 3198 }
    );
}

#[test]
fn run_without_carry() {
    let data = run_fixture(10, 20, 0b0011_0101, 4);
    let parser = XrainParser::default();
    let (rest, meshes) = parser.read_sequential_block(&data).unwrap();
    assert!(rest.is_empty());
    let got: Vec<(u16, u8, u8, u8)> =
        meshes.iter().map(|m| (m.primary_x, m.primary_y, m.x, m.y)).collect();
    assert_eq!(got, vec![(20, 10, 5, 3), (20, 10, 6, 3), (20, 10, 7, 3)]);
    assert_eq!(meshes[1].xrain_cells.get(0).strength, 100);
}

#[test]
fn run_with_carry() {
    let data = run_fixture(10, 20, 0b0011_0101, 6);
    let parser = XrainParser::default();
    let (_, meshes) = parser.read_sequential_block(&data).unwrap();
    let got: Vec<(u16, u8, u8, u8)> =
        meshes.iter().map(|m| (m.primary_x, m.primary_y, m.x, m.y)).collect();
    assert_eq!(
        got,
        vec![(20, 10, 5, 3), (20, 10, 6, 3), (20, 10, 7, 3), (21, 10, 0, 3), (21, 10, 1, 3)]
    );
}

#[test]
fn run_zero_count() {
    let parser = XrainParser::default();
    assert_eq!(
        parser.read_sequential_block(&[1, 2, 3, 0]).unwrap_err(),
        XrainError::FormatViolation { offset: 3 }
    );
}

#[test]
fn run_short() {
    let parser = XrainParser::default();
    assert_eq!(
        parser.read_sequential_block(&[1, 2]).unwrap_err(),
        XrainError::InsufficientData { offset: 2 }
    );
    let mut data = run_fixture(1, 2, 0, 3);
    data.truncate(4 + 3200 + 7);
    assert_eq!(
        parser.read_sequential_block(&data).unwrap_err(),
        XrainError::InsufficientData { offset: 4 + 3200 + 6 }
    );
}

#[test]
fn decode_run_stores_blocks() {
    let mut parser = XrainParser::default();
    let mut data = run_fixture(10, 20, 0x37, 3);
    data.push(0xEE);
    let rest = parser.decode_run(&data).unwrap();
    assert_eq!(rest, &[0xEE]);
    let first = parser.meshes.get(10 * 0x10000 + 20, 3 * 0x100 + 7).unwrap();
    assert_eq!((first.primary_x, first.x), (20, 7));
    let second = parser.meshes.get(10 * 0x10000 + 21, 3 * 0x100).unwrap();
    assert_eq!((second.primary_x, second.x), (21, 0));
}

#[test]
fn decode_run_failure_keeps_meshes() {
    let mut parser = XrainParser::default();
    parser.decode_run(&run_fixture(10, 20, 0, 2)).unwrap();
    let mut data = run_fixture(11, 20, 0, 3);
    data.pop();
    assert!(parser.decode_run(&data).is_err());
    assert_eq!(parser.meshes.primary_meshed.len(), 1);
    assert!(parser.meshes.get(11 * 0x10000 + 20, 0).is_none());
}

#[test]
fn capacity_exceeded() {
    let mut c = counting_block();
    assert_eq!(
        c.push(XrainCell { quality: 0xF000, strength: 9 }),
        Err(XrainError::CapacityExceeded)
    );
    assert_eq!(c.len(), 1600);
    for k in 0..1600usize {
        assert_eq!(c.get(k).strength as usize, k);
    }
}

#[test]
fn export_rows() {
    let mesh = SecondaryMesh::new(20, 10, 1, 2, counting_block());
    let rows = mesh.strength_rows().unwrap();
    assert_eq!(rows.len(), 40);
    for (r, row) in rows.iter().enumerate() {
        let expected: Vec<u16> = (0..40).map(|j| (40 * r + j) as u16).collect();
        assert_eq!(row, &expected);
    }
}

#[test]
fn export_incomplete() {
    let mut c = CellComposite::default();
    c.push(XrainCell { quality: 0, strength: 1 }).unwrap();
    let mesh = SecondaryMesh::new(20, 10, 1, 2, c);
    assert_eq!(mesh.strength_rows().unwrap_err(), XrainError::IncompleteMesh);
}

#[test]
fn assign_cells_replaces() {
    let mut mesh = SecondaryMesh::new(20, 10, 1, 2, CellComposite::default());
    mesh.assign_cells(counting_block()).unwrap();
    assert_eq!(mesh.xrain_cells.len(), 1600);
    assert_eq!((mesh.primary_x, mesh.primary_y, mesh.x, mesh.y), (20, 10, 1, 2));
}

#[test]
fn insert_same_key_twice() {
    let mut mc = MeshCollection::default();
    let mut first = CellComposite::default();
    first.push(XrainCell { quality: 0, strength: 1 }).unwrap();
    let mut second = CellComposite::default();
    second.push(XrainCell { quality: 0, strength: 2 }).unwrap();
    mc.insert(SecondaryMesh::new(20, 10, 4, 5, first));
    mc.insert(SecondaryMesh::new(20, 10, 4, 5, second));
    assert_eq!(mc.primary_meshed.len(), 1);
    let pm = mc.primary_meshed.values().next().unwrap();
    assert_eq!((pm.lat, pm.lon), (10, 20));
    assert_eq!(pm.secondary_mesh.len(), 1);
    let m = mc.get(10 * 0x10000 + 20, 5 * 0x100 + 4).unwrap();
    assert_eq!(m.xrain_cells.get(0).strength, 2);
}

#[test]
fn decode_whole_file() {
    let mut data = header_fixture();
    data.extend(run_fixture(10, 20, 0x00, 2));
    data.extend(run_fixture(10, 20, 0x11, 3));
    let mut parser = XrainParser::default();
    let h = parser.decode(&data).unwrap();
    assert_eq!(h.block_num, 16);
    assert_eq!(parser.meshes.primary_meshed.len(), 1);
    let pm = parser.meshes.primary_meshed.values().next().unwrap();
    assert_eq!(pm.secondary_mesh.len(), 3);
}

#[test]
fn decode_reports_absolute_offset() {
    let mut data = header_fixture();
    data.extend(run_fixture(10, 20, 0x00, 2));
    data.extend_from_slice(&[10, 20, 0x01, 0]);
    let mut parser = XrainParser::default();
    assert_eq!(
        parser.decode(&data).unwrap_err(),
        XrainError::FormatViolation { offset: 64 + 3204 + 3 }
    );
    assert_eq!(parser.meshes.primary_meshed.len(), 1);
}
