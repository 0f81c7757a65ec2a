use crate::header::{middle_start, SagasHeader};
use crate::palette::{SagasColor, SagasColorLUT};
use crate::reader::{has_bytes, le_at, ByteReader, ErrorKind};
use crate::{DecodeError, FromReader, Stage};
use vstd::prelude::*;

verus! {

/// Every pixel names an entry that `palette` has.
pub open spec fn indices_in_range(palette: Seq<SagasColor>, pixels: Seq<u8>) -> bool {
    forall|i: int| 0 <= i < pixels.len() ==> (#[trigger] pixels[i] as int) < palette.len()
}

/// Each pixel replaced by the palette entry it names, in the same row-major order.
pub open spec fn composed(palette: Seq<SagasColor>, pixels: Seq<u8>) -> Seq<SagasColor> {
    Seq::new(pixels.len(), |i: int| palette[pixels[i] as int])
}

/// Turns a plane of palette indices into colours: the pixel at column `x` of
/// row `y` is `palette[pixels[y * width + x]]`. Fails when a pixel names an
/// entry past the end of `palette`.
pub fn compose(palette: &[SagasColor], pixels: &[u8], width: usize, height: usize) -> (res: Result<
    Vec<SagasColor>,
    DecodeError,
>)
    requires
        pixels@.len() == width * height,
    ensures
        match res {
            Ok(img) => indices_in_range(palette@, pixels@) && img@ == composed(palette@, pixels@),
            Err(e) => !indices_in_range(palette@, pixels@) && e == (DecodeError {
                stage: Stage::Compose,
                kind: ErrorKind::IndexOutOfRange,
            }),
        },
{
    let n = pixels.len();
    let mut out: Vec<SagasColor> = Vec::with_capacity(n);
    let mut y: usize = 0;
    while y < height
        invariant
            n == pixels@.len(),
            pixels@.len() == width * height,
            y <= height,
            out@ == composed(palette@, pixels@).subrange(0, y * width),
            indices_in_range(palette@, pixels@.subrange(0, y * width)),
        decreases height - y,
    {
        assert((y + 1) * width <= width * height) by (nonlinear_arith)
            requires
                y < height,
        ;
        assert((y + 1) * width == y * width + width) by (nonlinear_arith);
        let mut x: usize = 0;
        while x < width
            invariant
                n == pixels@.len(),
                pixels@.len() == width * height,
                y < height,
                x <= width,
                y * width + width <= pixels@.len(),
                out@ == composed(palette@, pixels@).subrange(0, y * width + x),
                indices_in_range(palette@, pixels@.subrange(0, y * width + x)),
            decreases width - x,
        {
            let i = y * width + x;
            let c = pixels[i] as usize;
            if c >= palette.len() {
                assert(!indices_in_range(palette@, pixels@));
                return Err(DecodeError { stage: Stage::Compose, kind: ErrorKind::IndexOutOfRange });
            }
            out.push(palette[c]);
            x = x + 1;
            proof {
                assert(out@ =~= composed(palette@, pixels@).subrange(0, y * width + x));
                assert forall|j: int| 0 <= j < y * width + x implies (#[trigger] pixels@.subrange(
                    0,
                    y * width + x,
                )[j] as int) < palette@.len() by {
                    if j < i {
                        assert(pixels@.subrange(0, i as int)[j] == pixels@[j]);
                    }
                }
            }
        }
        y = y + 1;
        assert(y * width == (y - 1) * width + width) by (nonlinear_arith);
    }
    proof {
        assert(y * width == width * height) by (nonlinear_arith)
            requires
                y == height,
        ;
        assert(pixels@.subrange(0, y * width) =~= pixels@);
        assert(out@ =~= composed(palette@, pixels@));
    }
    Ok(out)
}

/// Offset of the pixel plane, as named by the header at `pos`.
pub open spec fn image_offset_at(data: Seq<u8>, pos: int) -> int {
    le_at(data, middle_start(data, pos) + 12, 4) as int
}

/// Number of pixels, as given by the header at `pos`.
pub open spec fn pixel_count_at(data: Seq<u8>, pos: int) -> int {
    (le_at(data, middle_start(data, pos) + 16, 2) * le_at(data, middle_start(data, pos) + 18, 2)) as int
}

/// Offset of the colour table, as named by the header at `pos`.
pub open spec fn color_table_offset_at(data: Seq<u8>, pos: int) -> int {
    le_at(data, middle_start(data, pos) + 28, 4) as int
}

/// A decoded file: its header, its colour table in index order and its pixel plane.
#[derive(Debug)]
pub struct SagasFile {
    header: SagasHeader,
    lut: SagasColorLUT,
    image: Vec<u8>,
}

impl SagasFile {
    #[verifier::type_invariant]
    spec fn inv(&self) -> bool {
        &&& self.lut@.len() == 256
        &&& self.image@.len() == self.header.width * self.header.height
    }

    pub closed spec fn header_spec(&self) -> SagasHeader {
        self.header
    }

    pub closed spec fn table_spec(&self) -> SagasColorLUT {
        self.lut
    }

    /// The pixel plane: one palette index per pixel, row by row.
    pub closed spec fn pixels(&self) -> Seq<u8> {
        self.image@
    }

    pub fn get_header(&self) -> (r: &SagasHeader)
        ensures
            *r == self.header_spec(),
    {
        &self.header
    }

    pub fn get_color_table(&self) -> (r: &SagasColorLUT)
        ensures
            *r == self.table_spec(),
    {
        &self.lut
    }

    pub fn get_image(&self) -> (r: &[u8])
        ensures
            r@ == self.pixels(),
    {
        self.image.as_slice()
    }

    /// The image as colours, row by row: each pixel's entry of the colour table.
    pub fn to_rgba(&self) -> (r: Vec<SagasColor>)
        ensures
            r@ == composed(self.table_spec()@, self.pixels()),
            r@.len() == self.header_spec().width * self.header_spec().height,
    {
        proof {
            use_type_invariant(self);
        }
        let width = self.header.width as usize;
        let height = self.header.height as usize;
        match compose(self.lut.colors(), self.image.as_slice(), width, height) {
            Ok(img) => img,
            Err(_) => {
                assert forall|i: int| 0 <= i < self.image@.len() implies (
                #[trigger] self.image@[i] as int) < self.lut@.len() by {}
                Vec::new()
            },
        }
    }
}

impl FromReader for SagasFile {
    /// The header, then 1024 bytes at the colour-table offset and one byte per
    /// pixel at the image offset.
    open spec fn readable(data: Seq<u8>, pos: int) -> bool {
        &&& SagasHeader::readable(data, pos)
        &&& SagasColorLUT::readable(data, color_table_offset_at(data, pos))
        &&& has_bytes(data, image_offset_at(data, pos), pixel_count_at(data, pos))
    }

    open spec fn read_end(data: Seq<u8>, pos: int) -> int {
        image_offset_at(data, pos) + pixel_count_at(data, pos)
    }

    open spec fn decoded_as(data: Seq<u8>, pos: int, v: SagasFile) -> bool {
        &&& SagasHeader::decoded_as(data, pos, v.header_spec())
        &&& SagasColorLUT::decoded_as(data, color_table_offset_at(data, pos), v.table_spec())
        &&& v.pixels() == data.subrange(
            image_offset_at(data, pos),
            image_offset_at(data, pos) + pixel_count_at(data, pos),
        )
    }

    /// The first part that runs out of bytes names the stage.
    open spec fn error_at(data: Seq<u8>, pos: int) -> DecodeError {
        let stage = if !SagasHeader::readable(data, pos) {
            Stage::Header
        } else if !SagasColorLUT::readable(data, color_table_offset_at(data, pos)) {
            Stage::Palette
        } else {
            Stage::Pixels
        };
        DecodeError { stage, kind: ErrorKind::UnexpectedEof }
    }

    fn from_reader(r: &mut ByteReader) -> (res: Result<SagasFile, DecodeError>) {
        let header = match SagasHeader::from_reader(r) {
            Ok(h) => h,
            Err(e) => return Err(e),
        };

        r.seek(header.color_table_offset as usize);
        let lut = match SagasColorLUT::from_reader(r) {
            Ok(t) => t,
            Err(e) => return Err(e),
        };

        r.seek(header.image_offset as usize);
        let (w, h) = (header.width as u32, header.height as u32);
        assert(w * h <= 0xffff * 0xffff) by (nonlinear_arith)
            requires
                w <= 0xffff,
                h <= 0xffff,
        ;
        let count = (w * h) as usize;
        let image = match r.read_bytes(count) {
            Ok(b) => b,
            Err(k) => return Err(DecodeError { stage: Stage::Pixels, kind: k }),
        };
        proof {
            assert(lut@.len() == 256);
        }
        Ok(SagasFile { header, lut, image })
    }
}

/// A decoded file's pixel plane holds exactly `width * height` bytes.
pub proof fn lemma_pixel_plane_len(data: Seq<u8>, pos: int, v: SagasFile)
    requires
        SagasFile::readable(data, pos),
        SagasFile::decoded_as(data, pos, v),
    ensures
        v.pixels().len() == v.header_spec().width * v.header_spec().height,
{
}

/// A stream that ends before the colour table or the pixel plane is complete
/// cannot be decoded, and the failure is an unexpected end of the stream.
pub proof fn lemma_truncated_fails(data: Seq<u8>, pos: int)
    requires
        SagasHeader::readable(data, pos),
        !has_bytes(data, color_table_offset_at(data, pos), 1024) || !has_bytes(
            data,
            image_offset_at(data, pos),
            pixel_count_at(data, pos),
        ),
    ensures
        !SagasFile::readable(data, pos),
        SagasFile::error_at(data, pos).kind == ErrorKind::UnexpectedEof,
{
}

} // verus!
