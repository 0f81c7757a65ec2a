use byteorder::{ByteOrder, LittleEndian};
use vstd::prelude::*;
use vstd::slice::slice_subrange;

verus! {

/// Why a read could not be served.
#[derive(Debug, Clone, Copy, PartialEq, Eq, Structural)]
pub enum ErrorKind {
    /// Fewer bytes remained than the read asked for.
    UnexpectedEof,
    /// A pixel referred to a colour-table slot that does not exist.
    IndexOutOfRange,
}

/// The unsigned value of `s`, least significant byte first.
pub open spec fn le_value(s: Seq<u8>) -> nat
    decreases s.len(),
{
    if s.len() == 0 {
        0
    } else {
        s[0] as nat + 256 * le_value(s.drop_first())
    }
}

/// `n` bytes are available at `pos`.
pub open spec fn has_bytes(data: Seq<u8>, pos: int, n: int) -> bool {
    0 <= pos && pos + n <= data.len()
}

/// The little-endian value of the `n` bytes at `pos`.
pub open spec fn le_at(data: Seq<u8>, pos: int, n: int) -> nat {
    le_value(data.subrange(pos, pos + n))
}

/// Index of the first zero byte at or after `i`, or `data.len()` when there is none.
pub open spec fn nul_from(data: Seq<u8>, i: int) -> int
    decreases data.len() - i,
{
    if i < 0 || i >= data.len() {
        data.len() as int
    } else if data[i] == 0 {
        i
    } else {
        nul_from(data, i + 1)
    }
}

/// A zero-terminated byte string starts at `pos`.
pub open spec fn cstr_ok(data: Seq<u8>, pos: int) -> bool {
    0 <= pos && nul_from(data, pos) < data.len()
}

/// Relies on byteorder's `LittleEndian::read_u16`: the first two bytes, least significant first.
#[verifier::external_body]
fn le_u16(b: &[u8]) -> (r: u16)
    requires
        b@.len() == 2,
    ensures
        r as nat == le_value(b@),
{
    LittleEndian::read_u16(b)
}

/// Relies on byteorder's `LittleEndian::read_u32`: the first four bytes, least significant first.
#[verifier::external_body]
fn le_u32(b: &[u8]) -> (r: u32)
    requires
        b@.len() == 4,
    ensures
        r as nat == le_value(b@),
{
    LittleEndian::read_u32(b)
}

/// Relies on byteorder's `LittleEndian::read_u64`: the first eight bytes, least significant first.
#[verifier::external_body]
fn le_u64(b: &[u8]) -> (r: u64)
    requires
        b@.len() == 8,
    ensures
        r as nat == le_value(b@),
{
    LittleEndian::read_u64(b)
}

/// A cursor over bytes held in memory: sequential little-endian reads and absolute seeks.
pub struct ByteReader {
    data: Vec<u8>,
    pos: usize,
}

impl ByteReader {
    /// The bytes being read.
    pub closed spec fn bytes(&self) -> Seq<u8> {
        self.data@
    }

    /// The offset of the next read; it may lie past the end.
    pub closed spec fn at(&self) -> int {
        self.pos as int
    }

    pub fn new(data: Vec<u8>) -> (r: ByteReader)
        ensures
            r.bytes() == data@,
            r.at() == 0,
    {
        ByteReader { data, pos: 0 }
    }

    pub fn position(&self) -> (r: usize)
        ensures
            r == self.at(),
    {
        self.pos
    }

    pub fn len(&self) -> (r: usize)
        ensures
            r == self.bytes().len(),
    {
        self.data.len()
    }

    /// Moves to `offset` from the start, forward or back; an offset past the end
    /// is accepted and makes the next read fail.
    pub fn seek(&mut self, offset: usize)
        ensures
            final(self).bytes() == old(self).bytes(),
            final(self).at() == offset,
    {
        self.pos = offset;
    }

    fn available(&self, n: usize) -> (r: bool)
        ensures
            r == has_bytes(self.bytes(), self.at(), n as int),
            r ==> self.pos + n <= self.data.len(),
    {
        self.pos <= self.data.len() && self.data.len() - self.pos >= n
    }

    pub fn read_u8(&mut self) -> (res: Result<u8, ErrorKind>)
        ensures
            final(self).bytes() == old(self).bytes(),
            match res {
                Ok(v) => has_bytes(old(self).bytes(), old(self).at(), 1)
                    && v == old(self).bytes()[old(self).at()]
                    && final(self).at() == old(self).at() + 1,
                Err(e) => !has_bytes(old(self).bytes(), old(self).at(), 1)
                    && e == ErrorKind::UnexpectedEof
                    && final(self).at() == old(self).at(),
            },
    {
        if !self.available(1) {
            return Err(ErrorKind::UnexpectedEof);
        }
        let v = self.data[self.pos];
        self.pos = self.pos + 1;
        Ok(v)
    }

    pub fn read_u16(&mut self) -> (res: Result<u16, ErrorKind>)
        ensures
            final(self).bytes() == old(self).bytes(),
            match res {
                Ok(v) => has_bytes(old(self).bytes(), old(self).at(), 2)
                    && v as nat == le_at(old(self).bytes(), old(self).at(), 2)
                    && final(self).at() == old(self).at() + 2,
                Err(e) => !has_bytes(old(self).bytes(), old(self).at(), 2)
                    && e == ErrorKind::UnexpectedEof
                    && final(self).at() == old(self).at(),
            },
    {
        if !self.available(2) {
            return Err(ErrorKind::UnexpectedEof);
        }
        let v = le_u16(slice_subrange(self.data.as_slice(), self.pos, self.pos + 2));
        self.pos = self.pos + 2;
        Ok(v)
    }

    pub fn read_u32(&mut self) -> (res: Result<u32, ErrorKind>)
        ensures
            final(self).bytes() == old(self).bytes(),
            match res {
                Ok(v) => has_bytes(old(self).bytes(), old(self).at(), 4)
                    && v as nat == le_at(old(self).bytes(), old(self).at(), 4)
                    && final(self).at() == old(self).at() + 4,
                Err(e) => !has_bytes(old(self).bytes(), old(self).at(), 4)
                    && e == ErrorKind::UnexpectedEof
                    && final(self).at() == old(self).at(),
            },
    {
        if !self.available(4) {
            return Err(ErrorKind::UnexpectedEof);
        }
        let v = le_u32(slice_subrange(self.data.as_slice(), self.pos, self.pos + 4));
        self.pos = self.pos + 4;
        Ok(v)
    }

    pub fn read_u64(&mut self) -> (res: Result<u64, ErrorKind>)
        ensures
            final(self).bytes() == old(self).bytes(),
            match res {
                Ok(v) => has_bytes(old(self).bytes(), old(self).at(), 8)
                    && v as nat == le_at(old(self).bytes(), old(self).at(), 8)
                    && final(self).at() == old(self).at() + 8,
                Err(e) => !has_bytes(old(self).bytes(), old(self).at(), 8)
                    && e == ErrorKind::UnexpectedEof
                    && final(self).at() == old(self).at(),
            },
    {
        if !self.available(8) {
            return Err(ErrorKind::UnexpectedEof);
        }
        let v = le_u64(slice_subrange(self.data.as_slice(), self.pos, self.pos + 8));
        self.pos = self.pos + 8;
        Ok(v)
    }

    /// Reads `n` bytes as they stand.
    pub fn read_bytes(&mut self, n: usize) -> (res: Result<Vec<u8>, ErrorKind>)
        ensures
            final(self).bytes() == old(self).bytes(),
            match res {
                Ok(v) => has_bytes(old(self).bytes(), old(self).at(), n as int)
                    && v@ == old(self).bytes().subrange(old(self).at(), old(self).at() + n)
                    && final(self).at() == old(self).at() + n,
                Err(e) => !has_bytes(old(self).bytes(), old(self).at(), n as int)
                    && e == ErrorKind::UnexpectedEof
                    && final(self).at() == old(self).at(),
            },
    {
        if !self.available(n) {
            return Err(ErrorKind::UnexpectedEof);
        }
        let start = self.pos;
        let mut out: Vec<u8> = Vec::with_capacity(n);
        let mut i: usize = 0;
        while i < n
            invariant
                self.data@ == old(self).data@,
                start == old(self).pos,
                self.pos == start,
                start + n <= self.data.len(),
                i <= n,
                out@ == self.data@.subrange(start as int, start + i),
            decreases n - i,
        {
            out.push(self.data[start + i]);
            i = i + 1;
            proof {
                assert(out@ =~= self.data@.subrange(start as int, start + i));
            }
        }
        self.pos = start + n;
        Ok(out)
    }

    /// Reads up to and including the first zero byte and returns the bytes before it.
    pub fn read_cstr(&mut self) -> (res: Result<Vec<u8>, ErrorKind>)
        ensures
            final(self).bytes() == old(self).bytes(),
            match res {
                Ok(v) => cstr_ok(old(self).bytes(), old(self).at())
                    && v@ == old(self).bytes().subrange(
                        old(self).at(),
                        nul_from(old(self).bytes(), old(self).at()),
                    )
                    && final(self).at() == nul_from(old(self).bytes(), old(self).at()) + 1,
                Err(e) => !cstr_ok(old(self).bytes(), old(self).at())
                    && e == ErrorKind::UnexpectedEof
                    && final(self).at() == old(self).at(),
            },
    {
        let start = self.pos;
        let len = self.data.len();
        let mut out: Vec<u8> = Vec::new();
        let mut i: usize = start;
        if i > len {
            return Err(ErrorKind::UnexpectedEof);
        }
        while i < len
            invariant
                self.data@ == old(self).data@,
                self.pos == start,
                start == old(self).pos,
                len == self.data.len(),
                start <= i <= len,
                out@ == self.data@.subrange(start as int, i as int),
                nul_from(self.data@, start as int) == nul_from(self.data@, i as int),
            decreases len - i,
        {
            if self.data[i] == 0 {
                self.pos = i + 1;
                return Ok(out);
            }
            out.push(self.data[i]);
            i = i + 1;
            proof {
                assert(out@ =~= self.data@.subrange(start as int, i as int));
            }
        }
        Err(ErrorKind::UnexpectedEof)
    }
}

} // verus!
