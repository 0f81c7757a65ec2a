use crate::reader::{has_bytes, ByteReader, ErrorKind};
use crate::{DecodeError, FromReader, Stage};
use vstd::prelude::*;

verus! {

/// Number of entries in a colour table.
pub const PALETTE_LEN: usize = 256;

/// Entries per tile of the stored colour table.
pub const BLOCK_LEN: usize = 32;

/// One colour-table entry, with its alpha already on the 0..=255 scale.
#[derive(Debug, Clone, Copy, PartialEq, Eq, Structural)]
pub struct SagasColor {
    pub r: u8,
    pub g: u8,
    pub b: u8,
    pub a: u8,
}

/// A stored alpha: zero stays zero, any other `a` becomes `2a - 1` modulo 256.
pub open spec fn remap_spec(a: u8) -> u8 {
    if a == 0 {
        0
    } else {
        ((2 * a - 1) % 256) as u8
    }
}

/// Widens a stored alpha to the full 0..=255 range, keeping zero as fully transparent.
pub fn remap_alpha(a: u8) -> (r: u8)
    ensures
        r == remap_spec(a),
{
    if a == 0 {
        0
    } else {
        ((a as u16 * 2 - 1) % 256) as u8
    }
}

/// The entry stored in the four bytes at `pos`: red, green, blue, stored alpha.
pub open spec fn color_at(data: Seq<u8>, pos: int) -> SagasColor {
    SagasColor {
        r: data[pos],
        g: data[pos + 1],
        b: data[pos + 2],
        a: remap_spec(data[pos + 3]),
    }
}

impl FromReader for SagasColor {
    open spec fn readable(data: Seq<u8>, pos: int) -> bool {
        has_bytes(data, pos, 4)
    }

    open spec fn read_end(data: Seq<u8>, pos: int) -> int {
        pos + 4
    }

    open spec fn decoded_as(data: Seq<u8>, pos: int, v: SagasColor) -> bool {
        v == color_at(data, pos)
    }

    open spec fn error_at(data: Seq<u8>, pos: int) -> DecodeError {
        DecodeError { stage: Stage::Palette, kind: ErrorKind::UnexpectedEof }
    }

    fn from_reader(r: &mut ByteReader) -> (res: Result<SagasColor, DecodeError>) {
        let raw = match r.read_bytes(4) {
            Ok(v) => v,
            Err(k) => {
                let e = DecodeError { stage: Stage::Palette, kind: k };
                assert(e == <SagasColor as FromReader>::error_at(old(r).bytes(), old(r).at()));
                return Err(e);
            },
        };
        let c = SagasColor { r: raw[0], g: raw[1], b: raw[2], a: remap_alpha(raw[3]) };
        assert(<SagasColor as FromReader>::readable(old(r).bytes(), old(r).at()));
        assert(<SagasColor as FromReader>::decoded_as(old(r).bytes(), old(r).at(), c));
        assert(r.at() == <SagasColor as FromReader>::read_end(old(r).bytes(), old(r).at()));
        Ok(c)
    }
}

/// Where entry `i` of the decoded table is stored: within each tile of 32,
/// slots `8..16` and `16..24` trade places and the rest stay.
pub open spec fn swizzle_index(i: int) -> int {
    let k = i % 32;
    if 8 <= k < 16 {
        i + 8
    } else if 16 <= k < 24 {
        i - 8
    } else {
        i
    }
}

/// `s` with the two middle quarters of every 32-entry tile exchanged.
pub open spec fn swizzled<T>(s: Seq<T>) -> Seq<T> {
    Seq::new(s.len(), |i: int| s[swizzle_index(i)])
}

proof fn lemma_swizzle_index_bounds(len: int, i: int)
    requires
        len % 32 == 0,
        0 <= i < len,
    ensures
        0 <= swizzle_index(i) < len,
        swizzle_index(swizzle_index(i)) == i,
{
    let k = i % 32;
    let q = i / 32;
    assert(i == 32 * q + k);
    assert(len == 32 * (len / 32));
    assert(q < len / 32) by (nonlinear_arith)
        requires
            i == 32 * q + k,
            0 <= k < 32,
            i < len,
            len == 32 * (len / 32),
    ;
    assert(32 * q + 32 <= len) by (nonlinear_arith)
        requires
            q < len / 32,
            len == 32 * (len / 32),
    ;
    if 8 <= k < 16 {
        assert((i + 8) % 32 == k + 8);
    } else if 16 <= k < 24 {
        assert((i - 8) % 32 == k - 8);
    }
}

/// Exchanges the middle quarters of every 32-entry tile; applying it twice
/// gives back the input.
pub fn swizzle<T: Copy>(entries: &[T]) -> (r: Vec<T>)
    requires
        entries@.len() % 32 == 0,
    ensures
        r@ == swizzled(entries@),
{
    let n = entries.len();
    let mut out: Vec<T> = Vec::with_capacity(n);
    let mut i: usize = 0;
    while i < n
        invariant
            n == entries@.len(),
            n % 32 == 0,
            i <= n,
            out@ == swizzled(entries@).subrange(0, i as int),
        decreases n - i,
    {
        proof {
            lemma_swizzle_index_bounds(n as int, i as int);
        }
        let k = i % BLOCK_LEN;
        let j = if 8 <= k && k < 16 {
            i + 8
        } else if 16 <= k && k < 24 {
            i - 8
        } else {
            i
        };
        out.push(entries[j]);
        i = i + 1;
        proof {
            assert(out@ =~= swizzled(entries@).subrange(0, i as int));
        }
    }
    proof {
        assert(out@ =~= swizzled(entries@));
    }
    out
}

/// Applying the tile exchange twice restores any table whose length is a
/// whole number of tiles.
pub proof fn lemma_swizzle_involution<T>(p: Seq<T>)
    requires
        p.len() % 32 == 0,
    ensures
        swizzled(swizzled(p)) == p,
{
    assert forall|i: int| 0 <= i < p.len() implies #[trigger] swizzled(swizzled(p))[i] == p[i] by {
        lemma_swizzle_index_bounds(p.len() as int, i);
    }
    assert(swizzled(swizzled(p)) =~= p);
}

/// Within each 32-entry tile, one exchange leaves slots `0..8` and `24..32` as
/// they were and swaps slot `8 + k` with slot `16 + k`.
pub proof fn lemma_swizzle_locality<T>(p: Seq<T>, block: int, k: int)
    requires
        p.len() % 32 == 0,
        0 <= block,
        32 * block + 32 <= p.len(),
        0 <= k < 8,
    ensures
        swizzled(p)[32 * block + k] == p[32 * block + k],
        swizzled(p)[32 * block + 24 + k] == p[32 * block + 24 + k],
        swizzled(p)[32 * block + 8 + k] == p[32 * block + 16 + k],
        swizzled(p)[32 * block + 16 + k] == p[32 * block + 8 + k],
{
    assert((32 * block + k) % 32 == k) by (nonlinear_arith)
        requires
            0 <= k < 8,
            0 <= block,
    ;
    assert((32 * block + 24 + k) % 32 == 24 + k) by (nonlinear_arith)
        requires
            0 <= k < 8,
            0 <= block,
    ;
    assert((32 * block + 8 + k) % 32 == 8 + k) by (nonlinear_arith)
        requires
            0 <= k < 8,
            0 <= block,
    ;
    assert((32 * block + 16 + k) % 32 == 16 + k) by (nonlinear_arith)
        requires
            0 <= k < 8,
            0 <= block,
    ;
}

/// The 256 entries as stored from `pos`, before the tile exchange.
pub open spec fn stored_table(data: Seq<u8>, pos: int) -> Seq<SagasColor> {
    Seq::new(PALETTE_LEN as nat, |i: int| color_at(data, pos + 4 * i))
}

/// The colour table of a file: 256 entries in index order.
#[derive(Debug)]
pub struct SagasColorLUT {
    colors: Vec<SagasColor>,
}

impl View for SagasColorLUT {
    type V = Seq<SagasColor>;

    closed spec fn view(&self) -> Seq<SagasColor> {
        self.colors@
    }
}

impl SagasColorLUT {
    /// The entries, indexed by the pixel values that refer to them.
    pub fn colors(&self) -> (r: &[SagasColor])
        ensures
            r@ == self@,
    {
        self.colors.as_slice()
    }
}

impl FromReader for SagasColorLUT {
    /// The table always takes 1024 bytes, whatever the image's size.
    open spec fn readable(data: Seq<u8>, pos: int) -> bool {
        has_bytes(data, pos, 4 * PALETTE_LEN)
    }

    open spec fn read_end(data: Seq<u8>, pos: int) -> int {
        pos + 4 * PALETTE_LEN
    }

    open spec fn decoded_as(data: Seq<u8>, pos: int, v: SagasColorLUT) -> bool {
        v@ == swizzled(stored_table(data, pos))
    }

    open spec fn error_at(data: Seq<u8>, pos: int) -> DecodeError {
        DecodeError { stage: Stage::Palette, kind: ErrorKind::UnexpectedEof }
    }

    fn from_reader(r: &mut ByteReader) -> (res: Result<SagasColorLUT, DecodeError>) {
        let mut stored: Vec<SagasColor> = Vec::with_capacity(PALETTE_LEN);
        let mut i: usize = 0;
        while i < PALETTE_LEN
            invariant
                i <= PALETTE_LEN,
                r.bytes() == old(r).bytes(),
                r.at() == old(r).at() + 4 * i,
                i > 0 ==> has_bytes(old(r).bytes(), old(r).at(), 4 * i),
                stored@ == stored_table(old(r).bytes(), old(r).at()).subrange(0, i as int),
            decreases PALETTE_LEN - i,
        {
            match SagasColor::from_reader(r) {
                Ok(c) => stored.push(c),
                Err(e) => return Err(e),
            }
            i = i + 1;
            proof {
                assert(stored@ =~= stored_table(old(r).bytes(), old(r).at()).subrange(0, i as int));
            }
        }
        proof {
            assert(stored@ =~= stored_table(old(r).bytes(), old(r).at()));
        }
        Ok(SagasColorLUT { colors: swizzle(stored.as_slice()) })
    }
}

} // verus!
