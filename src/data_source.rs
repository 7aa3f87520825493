//! Positioned reads over an image held in memory, with fixed-layout
//! little-endian decoding of integers.

use vstd::prelude::*;

verus! {

/// Little-endian value of the two bytes of `s` at `p`.
pub open spec fn le_u16(s: Seq<u8>, p: int) -> int {
    s[p] + 256 * s[p + 1]
}

/// Little-endian value of the four bytes of `s` at `p`.
pub open spec fn le_u32(s: Seq<u8>, p: int) -> int {
    le_u16(s, p) + 65536 * le_u16(s, p + 2)
}

/// Little-endian value of the eight bytes of `s` at `p`.
pub open spec fn le_u64(s: Seq<u8>, p: int) -> int {
    le_u32(s, p) + 4294967296 * le_u32(s, p + 4)
}

/// `n` bytes starting at `p` lie inside `s`.
pub open spec fn in_bounds(s: Seq<u8>, p: int, n: int) -> bool {
    0 <= p && 0 <= n && p + n <= s.len()
}

pub fn u8_at(b: &[u8], p: usize) -> (r: u8)
    requires
        p < b@.len(),
    ensures
        r == b@[p as int],
{
    b[p]
}

pub fn u16_at(b: &[u8], p: usize) -> (r: u16)
    requires
        p + 2 <= b@.len(),
    ensures
        r == le_u16(b@, p as int),
{
    b[p] as u16 + 256 * (b[p + 1] as u16)
}

pub fn u32_at(b: &[u8], p: usize) -> (r: u32)
    requires
        p + 4 <= b@.len(),
    ensures
        r == le_u32(b@, p as int),
{
    proof {
        assert(b@.len() == b.len());
    }
    let lo = u16_at(b, p);
    let hi = u16_at(b, p + 2);
    lo as u32 + 65536 * (hi as u32)
}

pub fn u64_at(b: &[u8], p: usize) -> (r: u64)
    requires
        p + 8 <= b@.len(),
    ensures
        r == le_u64(b@, p as int),
{
    proof {
        assert(b@.len() == b.len());
    }
    let lo = u32_at(b, p);
    let hi = u32_at(b, p + 4);
    lo as u64 + 4294967296 * (hi as u64)
}

/// Copy of `b[p..p + n]`.
pub fn bytes_at(b: &[u8], p: usize, n: usize) -> (r: Vec<u8>)
    requires
        p + n <= b@.len(),
    ensures
        r@ == b@.subrange(p as int, p + n),
{
    proof {
        assert(b@.len() == b.len());
    }
    let mut out: Vec<u8> = Vec::with_capacity(n);
    let mut i: usize = 0;
    while i < n
        invariant
            i <= n,
            p + n <= b@.len(),
            b@.len() <= usize::MAX,
            out@ == b@.subrange(p as int, p + i),
        decreases n - i,
    {
        out.push(b[p + i]);
        i = i + 1;
        assert(out@ =~= b@.subrange(p as int, p + i));
    }
    out
}

/// A random-access source of bytes: the image, or a file's raw payload.
pub struct DataSource {
    bytes: Vec<u8>,
}

/// A decoded value together with the position it was read from.
#[derive(Clone, Copy, Debug)]
pub struct DataPointer<T> {
    pub data: T,
    pub position: u64,
}

#[derive(Clone, Copy, Debug, PartialEq, Eq, Structural)]
pub enum DataSourceError {
    WriteDataError,
    ReadDataError,
    SerializeError,
    DeserializeError,
}

impl View for DataSource {
    type V = Seq<u8>;

    closed spec fn view(&self) -> Seq<u8> {
        self.bytes@
    }
}

impl DataSource {
    pub fn from_source(source: Vec<u8>) -> (r: DataSource)
        ensures
            r@ == source@,
    {
        DataSource { bytes: source }
    }

    /// The source holds at most `usize::MAX` bytes.
    pub proof fn lemma_len_bound(&self)
        ensures
            self@.len() <= usize::MAX,
    {
        assert(self.bytes@.len() == self.bytes.len());
    }

    pub fn len(&self) -> (r: u64)
        ensures
            r == self@.len(),
    {
        self.bytes.len() as u64
    }

    pub fn as_slice(&self) -> (r: &[u8])
        ensures
            r@ == self@,
    {
        self.bytes.as_slice()
    }

    /// Checks that `n` bytes at `position` are inside the source and gives
    /// `position` as an index.
    fn range_start(&self, position: u64, n: u64) -> (r: Result<usize, DataSourceError>)
        ensures
            r is Ok <==> in_bounds(self@, position as int, n as int),
            r is Ok ==> r->Ok_0 == position,
            r is Err ==> r->Err_0 == DataSourceError::ReadDataError,
    {
        let len = self.bytes.len() as u64;
        if position <= len && n <= len - position {
            Ok(position as usize)
        } else {
            Err(DataSourceError::ReadDataError)
        }
    }

    pub fn read_bytes_at(&self, position: u64, size: u64) -> (r: Result<Vec<u8>, DataSourceError>)
        ensures
            r is Ok <==> in_bounds(self@, position as int, size as int),
            r is Ok ==> r->Ok_0@ == self@.subrange(position as int, position + size),
            r is Err ==> r->Err_0 == DataSourceError::ReadDataError,
    {
        let p = self.range_start(position, size)?;
        let n = (self.bytes.len() - p) as u64;
        proof {
            assert(size <= n);
        }
        Ok(bytes_at(self.bytes.as_slice(), p, size as usize))
    }

    pub fn read_u8_at(&self, position: u64) -> (r: Result<u8, DataSourceError>)
        ensures
            r is Ok <==> in_bounds(self@, position as int, 1),
            r is Ok ==> r->Ok_0 == self@[position as int],
            r is Err ==> r->Err_0 == DataSourceError::ReadDataError,
    {
        let p = self.range_start(position, 1)?;
        Ok(u8_at(self.bytes.as_slice(), p))
    }
}

} // verus!
