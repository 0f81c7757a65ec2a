use crate::reader::{cstr_ok, has_bytes, le_at, nul_from, ByteReader, ErrorKind};
use crate::{DecodeError, FromReader, Stage};
use vstd::prelude::*;

verus! {

/// The fixed-layout start of a file. The `unk` fields are not interpreted and
/// are kept as read; the two paths are raw bytes in no particular encoding.
#[derive(Debug, Clone)]
pub struct SagasHeader {
    pub unk0: u64,
    pub unk1: u32,
    pub unk2: u32,
    pub unk3: u32,
    pub unk4: u32,
    /// Path of the asset this image was made from.
    pub source_path: Vec<u8>,
    pub unk5: u32,
    pub unk6: u32,
    pub unk7: u32,
    /// Absolute offset of the pixel plane.
    pub image_offset: u32,
    pub width: u16,
    pub height: u16,
    pub unk9: u32,
    pub unk10: u32,
    /// Absolute offset of the colour table.
    pub color_table_offset: u32,
    pub unk12: u16,
    pub unk13: u16,
    pub unk14: u32,
    /// A second embedded path.
    pub note_path: Vec<u8>,
}

/// Index of the zero byte that ends the source path of a header at `pos`.
pub open spec fn source_path_end(data: Seq<u8>, pos: int) -> int {
    nul_from(data, pos + 24)
}

/// Start of the 40 fixed bytes that follow the source path.
pub open spec fn middle_start(data: Seq<u8>, pos: int) -> int {
    source_path_end(data, pos) + 1
}

/// Index of the zero byte that ends the note path.
pub open spec fn note_path_end(data: Seq<u8>, pos: int) -> int {
    nul_from(data, middle_start(data, pos) + 40)
}

fn header_error(kind: ErrorKind) -> (e: DecodeError)
    ensures
        e == (DecodeError { stage: Stage::Header, kind }),
{
    DecodeError { stage: Stage::Header, kind }
}

impl FromReader for SagasHeader {
    /// 24 fixed bytes, a terminated path, 40 fixed bytes and a second terminated path.
    open spec fn readable(data: Seq<u8>, pos: int) -> bool {
        &&& has_bytes(data, pos, 24)
        &&& cstr_ok(data, pos + 24)
        &&& has_bytes(data, middle_start(data, pos), 40)
        &&& cstr_ok(data, middle_start(data, pos) + 40)
    }

    open spec fn read_end(data: Seq<u8>, pos: int) -> int {
        note_path_end(data, pos) + 1
    }

    open spec fn decoded_as(data: Seq<u8>, pos: int, v: SagasHeader) -> bool {
        let m = middle_start(data, pos);
        &&& v.unk0 == le_at(data, pos, 8)
        &&& v.unk1 == le_at(data, pos + 8, 4)
        &&& v.unk2 == le_at(data, pos + 12, 4)
        &&& v.unk3 == le_at(data, pos + 16, 4)
        &&& v.unk4 == le_at(data, pos + 20, 4)
        &&& v.source_path@ == data.subrange(pos + 24, source_path_end(data, pos))
        &&& v.unk5 == le_at(data, m, 4)
        &&& v.unk6 == le_at(data, m + 4, 4)
        &&& v.unk7 == le_at(data, m + 8, 4)
        &&& v.image_offset == le_at(data, m + 12, 4)
        &&& v.width == le_at(data, m + 16, 2)
        &&& v.height == le_at(data, m + 18, 2)
        &&& v.unk9 == le_at(data, m + 20, 4)
        &&& v.unk10 == le_at(data, m + 24, 4)
        &&& v.color_table_offset == le_at(data, m + 28, 4)
        &&& v.unk12 == le_at(data, m + 32, 2)
        &&& v.unk13 == le_at(data, m + 34, 2)
        &&& v.unk14 == le_at(data, m + 36, 4)
        &&& v.note_path@ == data.subrange(m + 40, note_path_end(data, pos))
    }

    open spec fn error_at(data: Seq<u8>, pos: int) -> DecodeError {
        DecodeError { stage: Stage::Header, kind: ErrorKind::UnexpectedEof }
    }

    fn from_reader(r: &mut ByteReader) -> (res: Result<SagasHeader, DecodeError>) {
        let unk0 = match r.read_u64() { Ok(v) => v, Err(k) => return Err(header_error(k)) };
        let unk1 = match r.read_u32() { Ok(v) => v, Err(k) => return Err(header_error(k)) };
        let unk2 = match r.read_u32() { Ok(v) => v, Err(k) => return Err(header_error(k)) };
        let unk3 = match r.read_u32() { Ok(v) => v, Err(k) => return Err(header_error(k)) };
        let unk4 = match r.read_u32() { Ok(v) => v, Err(k) => return Err(header_error(k)) };
        let source_path = match r.read_cstr() { Ok(v) => v, Err(k) => return Err(header_error(k)) };

        let unk5 = match r.read_u32() { Ok(v) => v, Err(k) => return Err(header_error(k)) };
        let unk6 = match r.read_u32() { Ok(v) => v, Err(k) => return Err(header_error(k)) };
        let unk7 = match r.read_u32() { Ok(v) => v, Err(k) => return Err(header_error(k)) };
        let image_offset = match r.read_u32() { Ok(v) => v, Err(k) => return Err(header_error(k)) };
        let width = match r.read_u16() { Ok(v) => v, Err(k) => return Err(header_error(k)) };
        let height = match r.read_u16() { Ok(v) => v, Err(k) => return Err(header_error(k)) };
        let unk9 = match r.read_u32() { Ok(v) => v, Err(k) => return Err(header_error(k)) };
        let unk10 = match r.read_u32() { Ok(v) => v, Err(k) => return Err(header_error(k)) };
        let color_table_offset = match r.read_u32() { Ok(v) => v, Err(k) => return Err(header_error(k)) };
        let unk12 = match r.read_u16() { Ok(v) => v, Err(k) => return Err(header_error(k)) };
        let unk13 = match r.read_u16() { Ok(v) => v, Err(k) => return Err(header_error(k)) };
        let unk14 = match r.read_u32() { Ok(v) => v, Err(k) => return Err(header_error(k)) };
        let note_path = match r.read_cstr() { Ok(v) => v, Err(k) => return Err(header_error(k)) };

        Ok(SagasHeader {
            unk0,
            unk1,
            unk2,
            unk3,
            unk4,
            source_path,
            unk5,
            unk6,
            unk7,
            image_offset,
            width,
            height,
            unk9,
            unk10,
            color_table_offset,
            unk12,
            unk13,
            unk14,
            note_path,
        })
    }
}

} // verus!
