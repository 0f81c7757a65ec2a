use sagas_bitmap::{
    compose, remap_alpha, swizzle, ByteReader, DecodeError, ErrorKind, FromReader, SagasColor,
    SagasColorLUT, SagasFile, SagasHeader, Stage,
};

fn push_u16(v: &mut Vec<u8>, x: u16) {
    v.extend_from_slice(&x.to_le_bytes());
}

fn push_u32(v: &mut Vec<u8>, x: u32) {
    v.extend_from_slice(&x.to_le_bytes());
}

/// A header with recognisable filler values; returns the bytes.
fn header_bytes(source: &[u8], note: &[u8], image_offset: u32, w: u16, h: u16, table: u32) -> Vec<u8> {
    let mut v = Vec::new();
    v.extend_from_slice(&0x0102030405060708u64.to_le_bytes());
    push_u32(&mut v, 11);
    push_u32(&mut v, 12);
    push_u32(&mut v, 13);
    push_u32(&mut v, 14);
    v.extend_from_slice(source);
    v.push(0);
    push_u32(&mut v, 15);
    push_u32(&mut v, 16);
    push_u32(&mut v, 17);
    push_u32(&mut v, image_offset);
    push_u16(&mut v, w);
    push_u16(&mut v, h);
    push_u32(&mut v, 19);
    push_u32(&mut v, 20);
    push_u32(&mut v, table);
    push_u16(&mut v, 22);
    push_u16(&mut v, 23);
    push_u32(&mut v, 24);
    v.extend_from_slice(note);
    v.push(0);
    v
}

/// A whole file: header, then the stored table at 256, then the pixels at 1280.
fn file_bytes(w: u16, h: u16, table: &[[u8; 4]], pixels: &[u8]) -> Vec<u8> {
    let mut v = header_bytes(b"src/a.tga", b"note", 1280, w, h, 256);
    assert!(v.len() <= 256);
    v.resize(256, 0xEE);
    for i in 0..256 {
        let e = table.get(i).copied().unwrap_or([0, 0, 0, 0]);
        v.extend_from_slice(&e);
    }
    v.extend_from_slice(pixels);
    v
}

fn col(r: u8, g: u8, b: u8, a: u8) -> SagasColor {
    SagasColor { r, g, b, a }
}

#[test]
fn alpha_remap_boundaries() {
    assert_eq!(remap_alpha(0), 0);
    assert_eq!(remap_alpha(1), 1);
    assert_eq!(remap_alpha(64), 127);
    assert_eq!(remap_alpha(128), 255);
    assert_eq!(remap_alpha(255), 253);
}

#[test]
fn swizzle_twice_restores() {
    let p: Vec<u8> = (0..=255u8).collect();
    let once = swizzle(&p);
    assert_ne!(once, p);
    assert_eq!(swizzle(&once), p);
}

#[test]
fn swizzle_moves_only_middle_quarters() {
    let p: Vec<u8> = (0..=255u8).collect();
    let s = swizzle(&p);
    for block in 0..8usize {
        let base = 32 * block;
        for k in 0..8usize {
            assert_eq!(s[base + k], p[base + k]);
            assert_eq!(s[base + 24 + k], p[base + 24 + k]);
            assert_eq!(s[base + 8 + k], p[base + 16 + k]);
            assert_eq!(s[base + 16 + k], p[base + 8 + k]);
        }
    }
}

#[test]
fn reader_little_endian_values() {
    let mut r = ByteReader::new(vec![0x01, 0x02, 0x03, 0x04, 0x05, 0x06, 0x07, 0x08, 0x09, 0x0A, 0x0B, 0x0C, 0x0D, 0x0E, 0x0F]);
    assert_eq!(r.read_u8(), Ok(0x01));
    assert_eq!(r.read_u16(), Ok(0x0302));
    assert_eq!(r.read_u32(), Ok(0x07060504));
    assert_eq!(r.read_u64(), Ok(0x0F0E0D0C0B0A0908));
    assert_eq!(r.position(), 15);
    assert_eq!(r.read_u8(), Err(ErrorKind::UnexpectedEof));
}

#[test]
fn reader_short_read_fails_and_keeps_position() {
    let mut r = ByteReader::new(vec![1, 2, 3]);
    assert_eq!(r.read_u32(), Err(ErrorKind::UnexpectedEof));
    assert_eq!(r.position(), 0);
    assert_eq!(r.read_u16(), Ok(0x0201));
    assert_eq!(r.read_u16(), Err(ErrorKind::UnexpectedEof));
    assert_eq!(r.read_u64(), Err(ErrorKind::UnexpectedEof));
}

#[test]
fn reader_seek_back_and_past_end() {
    let mut r = ByteReader::new(vec![9, 8, 7]);
    r.seek(2);
    assert_eq!(r.read_u8(), Ok(7));
    r.seek(0);
    assert_eq!(r.read_u8(), Ok(9));
    r.seek(100);
    assert_eq!(r.position(), 100);
    assert_eq!(r.read_u8(), Err(ErrorKind::UnexpectedEof));
    assert_eq!(r.read_bytes(0), Err(ErrorKind::UnexpectedEof));
}

#[test]
fn reader_terminated_strings() {
    let mut r = ByteReader::new(vec![b'a', b'b', 0, 0, 0xFF, 0xC3]);
    assert_eq!(r.read_cstr(), Ok(vec![b'a', b'b']));
    assert_eq!(r.position(), 3);
    assert_eq!(r.read_cstr(), Ok(vec![]));
    assert_eq!(r.position(), 4);
    assert_eq!(r.read_cstr(), Err(ErrorKind::UnexpectedEof));
    assert_eq!(r.position(), 4);
}

#[test]
fn header_fields_in_order() {
    let bytes = header_bytes(&[0xE9, b'x'], b"n", 0x11223344, 640, 480, 0x55667788);
    let mut r = ByteReader::new(bytes.clone());
    let h = SagasHeader::from_reader(&mut r).unwrap();
    assert_eq!(r.position(), bytes.len());
    assert_eq!(h.unk0, 0x0102030405060708);
    assert_eq!((h.unk1, h.unk2, h.unk3, h.unk4), (11, 12, 13, 14));
    assert_eq!(h.source_path, vec![0xE9, b'x']);
    assert_eq!((h.unk5, h.unk6, h.unk7), (15, 16, 17));
    assert_eq!(h.image_offset, 0x11223344);
    assert_eq!((h.width, h.height), (640, 480));
    assert_eq!((h.unk9, h.unk10), (19, 20));
    assert_eq!(h.color_table_offset, 0x55667788);
    assert_eq!((h.unk12, h.unk13, h.unk14), (22, 23, 24));
    assert_eq!(h.note_path, b"n".to_vec());
}

#[test]
fn header_truncated_fails() {
    let bytes = header_bytes(b"abc", b"n", 0, 1, 1, 0);
    for cut in [0, 7, 24, 27, 30, bytes.len() - 1] {
        let mut r = ByteReader::new(bytes[..cut].to_vec());
        let e = SagasHeader::from_reader(&mut r).unwrap_err();
        assert_eq!(e, DecodeError { stage: Stage::Header, kind: ErrorKind::UnexpectedEof });
    }
}

#[test]
fn color_entry_remaps_alpha() {
    let mut r = ByteReader::new(vec![1, 2, 3, 100]);
    assert_eq!(SagasColor::from_reader(&mut r), Ok(col(1, 2, 3, 199)));
    assert_eq!(r.position(), 4);
}

#[test]
fn color_table_takes_1024_bytes() {
    let mut data = vec![0xAB; 3];
    for i in 0..256u32 {
        data.extend_from_slice(&[i as u8, 0, 0, 1]);
    }
    data.extend_from_slice(&[1, 2, 3, 4]);
    let mut r = ByteReader::new(data);
    r.seek(3);
    let lut = SagasColorLUT::from_reader(&mut r).unwrap();
    assert_eq!(r.position(), 3 + 1024);
    let c = lut.colors();
    assert_eq!(c.len(), 256);
    assert_eq!(c[0], col(0, 0, 0, 1));
    assert_eq!(c[8], col(16, 0, 0, 1));
    assert_eq!(c[16], col(8, 0, 0, 1));
    assert_eq!(c[24], col(24, 0, 0, 1));
    assert_eq!(c[255], col(255, 0, 0, 1));
}

#[test]
fn color_table_truncated_fails() {
    let mut r = ByteReader::new(vec![0; 1023]);
    assert_eq!(
        SagasColorLUT::from_reader(&mut r).unwrap_err(),
        DecodeError { stage: Stage::Palette, kind: ErrorKind::UnexpectedEof }
    );
}

#[test]
fn end_to_end_two_by_two() {
    let table = [[10, 20, 30, 0], [40, 50, 60, 128], [70, 80, 90, 64], [100, 110, 120, 255]];
    let bytes = file_bytes(2, 2, &table, &[0, 1, 2, 3]);
    let mut r = ByteReader::new(bytes);
    let f = SagasFile::from_reader(&mut r).unwrap();
    assert_eq!(f.get_header().width, 2);
    assert_eq!(f.get_header().source_path, b"src/a.tga".to_vec());
    assert_eq!(f.get_image(), &[0, 1, 2, 3]);
    assert_eq!(f.get_color_table().colors().len(), 256);
    let img = f.to_rgba();
    assert_eq!(
        img,
        vec![col(10, 20, 30, 0), col(40, 50, 60, 255), col(70, 80, 90, 127), col(100, 110, 120, 253)]
    );
}

#[test]
fn pixels_go_through_swizzled_table() {
    let mut table = vec![[0u8, 0, 0, 0]; 256];
    table[16] = [1, 2, 3, 1];
    table[40] = [4, 5, 6, 2];
    let bytes = file_bytes(3, 1, &table, &[8, 48, 16]);
    let f = SagasFile::from_reader(&mut ByteReader::new(bytes)).unwrap();
    assert_eq!(f.to_rgba(), vec![col(1, 2, 3, 1), col(4, 5, 6, 3), col(0, 0, 0, 0)]);
}

#[test]
fn pixel_plane_has_width_times_height_bytes() {
    let pixels: Vec<u8> = (0..35u8).collect();
    let mut bytes = file_bytes(7, 5, &[], &pixels);
    bytes.extend_from_slice(&[9, 9, 9]);
    let f = SagasFile::from_reader(&mut ByteReader::new(bytes)).unwrap();
    assert_eq!(f.get_image().len(), 35);
    assert_eq!(f.to_rgba().len(), 35);
}

#[test]
fn empty_image_decodes() {
    let bytes = file_bytes(0, 9, &[], &[]);
    let f = SagasFile::from_reader(&mut ByteReader::new(bytes)).unwrap();
    assert!(f.get_image().is_empty());
    assert!(f.to_rgba().is_empty());
}

#[test]
fn truncated_streams_fail_by_stage() {
    let bytes = file_bytes(2, 2, &[], &[0, 1, 2, 3]);
    let cases = [(40, Stage::Header), (300, Stage::Palette), (1279, Stage::Palette), (1282, Stage::Pixels)];
    for (cut, stage) in cases {
        let mut r = ByteReader::new(bytes[..cut].to_vec());
        assert_eq!(
            SagasFile::from_reader(&mut r).unwrap_err(),
            DecodeError { stage, kind: ErrorKind::UnexpectedEof }
        );
    }
}

#[test]
fn compose_row_major() {
    let palette = [col(1, 1, 1, 1), col(2, 2, 2, 2), col(3, 3, 3, 3)];
    let img = compose(&palette, &[2, 0, 1, 1, 2, 0], 3, 2).unwrap();
    assert_eq!(img, vec![palette[2], palette[0], palette[1], palette[1], palette[2], palette[0]]);
}

#[test]
fn compose_index_out_of_range() {
    let palette = [col(1, 1, 1, 1), col(2, 2, 2, 2)];
    assert_eq!(
        compose(&palette, &[0, 1, 2, 0], 2, 2),
        Err(DecodeError { stage: Stage::Compose, kind: ErrorKind::IndexOutOfRange })
    );
}
