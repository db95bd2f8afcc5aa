//! Field-by-field little-endian decoding of the packed on-disk records.

use crate::error::WadDecodeError;
use crate::name::{LumpName, Signature};
use vstd::prelude::*;

verus! {

/// The signed 32-bit integer whose two's-complement little-endian encoding
/// is the four bytes of `b` starting at `off`.
pub open spec fn le_i32_at(b: Seq<u8>, off: int) -> int {
    let u = b[off] as int + 256 * (b[off + 1] as int) + 65536 * (b[off + 2] as int)
        + 16777216 * (b[off + 3] as int);
    if u >= 0x8000_0000 {
        u - 0x1_0000_0000
    } else {
        u
    }
}

/// Reads a little-endian `i32` from `b[off..off + 4]`.
pub fn read_i32_le(b: &[u8], off: usize) -> (r: i32)
    requires
        off + 4 <= b@.len(),
    ensures
        r as int == le_i32_at(b@, off as int),
{
    let u: u32 = b[off] as u32 + 256 * (b[off + 1] as u32) + 65536 * (b[off + 2] as u32)
        + 16777216 * (b[off + 3] as u32);
    if u >= 0x8000_0000 {
        (u - 0x8000_0000) as i32 - 0x4000_0000 - 0x4000_0000
    } else {
        u as i32
    }
}

} // verus!

verus! {

/// Where a lump's payload begins in the archive file, in bytes.
#[derive(Debug)]
pub struct Location(pub i32);

/// A lump's length in bytes.
#[derive(Debug)]
pub struct Size(pub i32);

/// Reserved tag for the kind of a lump; always zero here.
#[derive(Debug)]
pub struct EntryType(pub u8);

/// Reserved tag for a lump's compression; always zero here.
#[derive(Debug)]
pub struct Compression(pub u8);

/// One directory record.
#[derive(Debug)]
pub struct Entry {
    pub start: Location,
    pub size: Size,
    pub real_size: Size,
    pub kind: EntryType,
    pub compression: Compression,
    pub padding: i16,
    pub name: LumpName,
}

/// The fixed header at the start of an archive.
#[derive(Debug)]
pub struct Header {
    pub signature: Signature,
    pub count: i32,
    pub directory_offset: i32,
}

/// Length of the header record on disk.
pub const HEADER_SIZE: usize = 12;

/// Length of one directory record on disk.
pub const ENTRY_SIZE: usize = 16;

/// `h` is the header encoded by `b[0..12]`: signature, entry count and
/// directory offset at offsets 0, 4 and 8.
pub open spec fn header_of(h: Header, b: Seq<u8>) -> bool {
    &&& h.signature.0@ == b.subrange(0, 4)
    &&& h.count as int == le_i32_at(b, 4)
    &&& h.directory_offset as int == le_i32_at(b, 8)
}

/// `e` is the entry encoded by `b[off..off + 16]`: file position, size and
/// name at offsets 0, 4 and 8; the reserved fields are zero and the real size
/// is the size.
pub open spec fn entry_of(e: Entry, b: Seq<u8>, off: int) -> bool {
    &&& e.start.0 as int == le_i32_at(b, off)
    &&& e.size.0 as int == le_i32_at(b, off + 4)
    &&& e.real_size.0 == e.size.0
    &&& e.kind.0 == 0
    &&& e.compression.0 == 0
    &&& e.padding == 0
    &&& e.name.0@ == b.subrange(off + 8, off + 16)
}

/// Copies `b[off..off + N]` into an array.
fn read_array<const N: usize>(b: &[u8], off: usize) -> (r: [u8; N])
    requires
        off + N <= b@.len(),
    ensures
        r@ == b@.subrange(off as int, off + N),
{
    let mut a = [0u8; N];
    let len = b.len();
    let mut i: usize = 0;
    while i < N
        invariant
            len == b@.len(),
            off + N <= b@.len(),
            i <= N,
            forall|k: int| 0 <= k < i ==> a@[k] == b@[off + k],
        decreases N - i,
    {
        a[i] = b[off + i];
        i = i + 1;
    }
    assert(a@ =~= b@.subrange(off as int, off + N));
    a
}

/// Decodes the header from exactly twelve bytes.
pub fn decode_header(bytes: &[u8]) -> (r: Result<Header, WadDecodeError>)
    ensures
        r is Ok <==> bytes@.len() == HEADER_SIZE,
        r matches Ok(h) ==> header_of(h, bytes@),
        r matches Err(e) ==> e is CouldNotDecodeHeader,
{
    if bytes.len() != HEADER_SIZE {
        return Err(WadDecodeError::CouldNotDecodeHeader);
    }
    Ok(Header {
        signature: Signature(read_array(bytes, 0)),
        count: read_i32_le(bytes, 4),
        directory_offset: read_i32_le(bytes, 8),
    })
}

/// Decodes one directory entry from exactly sixteen bytes.
pub fn decode_entry(bytes: &[u8]) -> (r: Result<Entry, WadDecodeError>)
    ensures
        r is Ok <==> bytes@.len() == ENTRY_SIZE,
        r matches Ok(e) ==> entry_of(e, bytes@, 0),
        r matches Err(e) ==> e is CouldNotDecodeDirectory,
{
    if bytes.len() != ENTRY_SIZE {
        return Err(WadDecodeError::CouldNotDecodeDirectory);
    }
    let size = read_i32_le(bytes, 4);
    Ok(Entry {
        start: Location(read_i32_le(bytes, 0)),
        size: Size(size),
        real_size: Size(size),
        kind: EntryType(0),
        compression: Compression(0),
        padding: 0,
        name: LumpName(read_array(bytes, 8)),
    })
}

} // verus!
