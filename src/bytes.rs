//! Bounds-checked big-endian integer reads from a byte buffer.
//!
//! Every read states the value it returns as an integer formula over the
//! buffer's bytes, and returns `None` exactly when the bytes are not there.
use vstd::prelude::*;

verus! {

/// Whether `len` bytes starting at `off` lie within `s`.
pub open spec fn in_bounds(s: Seq<u8>, off: int, len: int) -> bool {
    0 <= off && 0 <= len && off + len <= s.len()
}

/// The unsigned 16-bit big-endian value of the two bytes at `off`.
pub open spec fn be_u16(s: Seq<u8>, off: int) -> int {
    s[off] as int * 0x100 + s[off + 1] as int
}

/// The two's-complement 16-bit big-endian value of the two bytes at `off`.
pub open spec fn be_i16(s: Seq<u8>, off: int) -> int {
    let u = be_u16(s, off);
    if u >= 0x8000 {
        u - 0x10000
    } else {
        u
    }
}

/// The unsigned 32-bit big-endian value of the four bytes at `off`.
pub open spec fn be_u32(s: Seq<u8>, off: int) -> int {
    be_u16(s, off) * 0x10000 + be_u16(s, off + 2)
}

/// The two's-complement 32-bit big-endian value of the four bytes at `off`.
pub open spec fn be_i32(s: Seq<u8>, off: int) -> int {
    let u = be_u32(s, off);
    if u >= 0x8000_0000 {
        u - 0x1_0000_0000
    } else {
        u
    }
}

/// The unsigned 64-bit big-endian value of the eight bytes at `off`.
pub open spec fn be_u64(s: Seq<u8>, off: int) -> int {
    be_u32(s, off) * 0x1_0000_0000 + be_u32(s, off + 4)
}

/// The two's-complement 64-bit big-endian value of the eight bytes at `off`.
pub open spec fn be_i64(s: Seq<u8>, off: int) -> int {
    let u = be_u64(s, off);
    if u >= 0x8000_0000_0000_0000 {
        u - 0x1_0000_0000_0000_0000
    } else {
        u
    }
}

/// Whether `[off, off + len)` fits in a buffer of `n` bytes, computed without overflow.
pub fn fits(n: usize, off: usize, len: usize) -> (r: bool)
    ensures
        r <==> off as int + len as int <= n as int,
{
    off <= n && n - off >= len
}

/// Reads the byte at `off`.
pub fn read_u8(data: &[u8], off: usize) -> (r: Option<u8>)
    ensures
        r.is_some() <==> in_bounds(data@, off as int, 1),
        r.is_some() ==> r.unwrap() == data@[off as int],
{
    if off < data.len() {
        Some(data[off])
    } else {
        None
    }
}

/// Reads the unsigned 16-bit big-endian value at `off`.
pub fn read_u16(data: &[u8], off: usize) -> (r: Option<u16>)
    ensures
        r.is_some() <==> in_bounds(data@, off as int, 2),
        r.is_some() ==> r.unwrap() as int == be_u16(data@, off as int),
{
    if fits(data.len(), off, 2) {
        Some(data[off] as u16 * 0x100 + data[off + 1] as u16)
    } else {
        None
    }
}

/// Reads the signed 16-bit big-endian value at `off`.
pub fn read_i16(data: &[u8], off: usize) -> (r: Option<i16>)
    ensures
        r.is_some() <==> in_bounds(data@, off as int, 2),
        r.is_some() ==> r.unwrap() as int == be_i16(data@, off as int),
{
    match read_u16(data, off) {
        Some(u) => {
            if u >= 0x8000 {
                Some((u as i32 - 0x10000) as i16)
            } else {
                Some(u as i16)
            }
        },
        None => None,
    }
}

/// Reads the unsigned 32-bit big-endian value at `off`.
pub fn read_u32(data: &[u8], off: usize) -> (r: Option<u32>)
    ensures
        r.is_some() <==> in_bounds(data@, off as int, 4),
        r.is_some() ==> r.unwrap() as int == be_u32(data@, off as int),
{
    if fits(data.len(), off, 4) {
        let hi = data[off] as u32 * 0x100 + data[off + 1] as u32;
        let lo = data[off + 2] as u32 * 0x100 + data[off + 3] as u32;
        Some(hi * 0x10000 + lo)
    } else {
        None
    }
}

/// Reads the signed 32-bit big-endian value at `off`.
pub fn read_i32(data: &[u8], off: usize) -> (r: Option<i32>)
    ensures
        r.is_some() <==> in_bounds(data@, off as int, 4),
        r.is_some() ==> r.unwrap() as int == be_i32(data@, off as int),
{
    match read_u32(data, off) {
        Some(u) => {
            if u >= 0x8000_0000 {
                Some((u as i64 - 0x1_0000_0000) as i32)
            } else {
                Some(u as i32)
            }
        },
        None => None,
    }
}

/// Reads the signed 64-bit big-endian value at `off`.
pub fn read_i64(data: &[u8], off: usize) -> (r: Option<i64>)
    ensures
        r.is_some() <==> in_bounds(data@, off as int, 8),
        r.is_some() ==> r.unwrap() as int == be_i64(data@, off as int),
{
    if fits(data.len(), off, 8) {
        let hi = read_u32(data, off).unwrap() as u64;
        let lo = read_u32(data, off + 4).unwrap() as u64;
        let u = hi * 0x1_0000_0000 + lo;
        if u >= 0x8000_0000_0000_0000 {
            Some(((u - 0x8000_0000_0000_0000) as i64) - 0x7fff_ffff_ffff_ffff - 1)
        } else {
            Some(u as i64)
        }
    } else {
        None
    }
}

/// Copies the bytes `[start, end)` of `data` into a new vector.
pub fn copy_range(data: &[u8], start: usize, end: usize) -> (r: Vec<u8>)
    requires
        start <= end <= data@.len(),
    ensures
        r@ == data@.subrange(start as int, end as int),
{
    let mut out: Vec<u8> = Vec::with_capacity(end - start);
    let mut i: usize = start;
    while i < end
        invariant
            start <= i <= end <= data@.len(),
            out@ == data@.subrange(start as int, i as int),
        decreases end - i,
    {
        out.push(data[i]);
        i = i + 1;
    }
    out
}

} // verus!
