//! Assembling the catalog of an archive from the bytes of its file.

use crate::error::{unexpected_eof, WadDecodeError};
use crate::layout::{
    decode_entry, decode_header, entry_of, le_i32_at, Entry, ENTRY_SIZE, HEADER_SIZE,
};
use crate::name::Signature;
use vstd::prelude::*;

verus! {

/// The entry count that the header in `b` declares.
pub open spec fn declared_count(b: Seq<u8>) -> int {
    le_i32_at(b, 4)
}

/// The directory offset that the header in `b` declares.
pub open spec fn declared_offset(b: Seq<u8>) -> int {
    le_i32_at(b, 8)
}

/// How many entries are read: a count below zero reads none.
pub open spec fn entries_to_read(b: Seq<u8>) -> int {
    if declared_count(b) > 0 {
        declared_count(b)
    } else {
        0
    }
}

/// Where the `i`-th directory record of the archive `b` begins.
pub open spec fn entry_offset(b: Seq<u8>, i: int) -> int {
    declared_offset(b) + i * 16
}

/// Every directory record that the header of `b` declares lies inside `b`.
pub open spec fn directory_present(b: Seq<u8>) -> bool {
    entries_to_read(b) == 0 || (declared_offset(b) >= 0 && entry_offset(
        b,
        entries_to_read(b),
    ) <= b.len())
}

/// An archive's signature and its directory, in on-disk order.
#[derive(Debug)]
pub struct Wad {
    pub signature: Signature,
    pub directory: Vec<Entry>,
}

impl Wad {
    /// Decodes the header and then each of the declared directory records
    /// from the bytes of an archive file. Input that ends before the header
    /// does, or before the last declared record does, is refused as a short
    /// read; nothing else fails.
    pub fn from_bytes(data: &[u8]) -> (r: Result<Wad, WadDecodeError>)
        ensures
            r is Ok <==> data@.len() >= HEADER_SIZE && directory_present(data@),
            (r matches Err(WadDecodeError::FailedToReadHeader(_))) <==> data@.len() < HEADER_SIZE,
            (r matches Err(WadDecodeError::FailedToReadDirectory(_))) <==> data@.len()
                >= HEADER_SIZE && !directory_present(data@),
            r matches Ok(w) ==> {
                &&& w.signature.0@ == data@.subrange(0, 4)
                &&& w.directory@.len() == entries_to_read(data@)
                &&& declared_count(data@) >= 0 ==> w.directory@.len() == declared_count(data@)
                &&& forall|i: int|
                    0 <= i < w.directory@.len() ==> entry_of(
                        #[trigger] w.directory@[i],
                        data@,
                        entry_offset(data@, i),
                    )
            },
    {
        if data.len() < HEADER_SIZE {
            return Err(WadDecodeError::FailedToReadHeader(unexpected_eof()));
        }
        let header = match decode_header(&data[0..HEADER_SIZE]) {
            Ok(h) => h,
            Err(e) => return Err(e),
        };
        assert(data@.subrange(0, 12).subrange(0, 4) =~= data@.subrange(0, 4));
        assert(le_i32_at(data@.subrange(0, 12), 4) == declared_count(data@));
        assert(le_i32_at(data@.subrange(0, 12), 8) == declared_offset(data@));
        let n = data.len();
        let len = n as u64;
        let dir = header.directory_offset;
        let mut directory: Vec<Entry> = Vec::new();
        let mut i: i32 = 0;
        while i < header.count
            invariant
                len == data@.len(),
                n == data@.len(),
                data@.len() >= HEADER_SIZE,
                header.count == declared_count(data@),
                dir == declared_offset(data@),
                0 <= i,
                i <= entries_to_read(data@),
                directory@.len() == i,
                i > 0 ==> dir >= 0 && entry_offset(data@, i as int) <= data@.len(),
                forall|k: int|
                    0 <= k < i ==> entry_of(#[trigger] directory@[k], data@, entry_offset(data@, k)),
            decreases header.count - i,
        {
            if dir < 0 {
                return Err(WadDecodeError::FailedToReadDirectory(unexpected_eof()));
            }
            let start = dir as u64 + (i as u64) * 16;
            assert(start == entry_offset(data@, i as int));
            if start + 16 > len {
                return Err(WadDecodeError::FailedToReadDirectory(unexpected_eof()));
            }
            let s = start as usize;
            let record = &data[s..s + ENTRY_SIZE];
            let entry = match decode_entry(record) {
                Ok(e) => e,
                Err(e) => return Err(e),
            };
            assert(record@.subrange(8, 16) =~= data@.subrange(s + 8, s + 16));
            assert(le_i32_at(record@, 0) == le_i32_at(data@, s as int));
            assert(le_i32_at(record@, 4) == le_i32_at(data@, s + 4));
            assert(entry_of(entry, data@, entry_offset(data@, i as int)));
            directory.push(entry);
            i = i + 1;
        }
        Ok(Wad { signature: header.signature, directory })
    }
}

/// A file cut to fewer bytes than the header holds is refused as a short
/// header read, whatever the file held before.
pub proof fn lemma_truncated_header(b: Seq<u8>, n: int)
    requires
        0 <= n < HEADER_SIZE,
        n <= b.len(),
    ensures
        b.subrange(0, n).len() < HEADER_SIZE,
{
}

/// Cutting a well-formed archive inside its last directory record, with the
/// header kept whole, leaves a directory that is no longer present, so the
/// load is refused as a short directory read.
pub proof fn lemma_truncated_directory(b: Seq<u8>, n: int)
    requires
        b.len() >= HEADER_SIZE,
        directory_present(b),
        entries_to_read(b) > 0,
        HEADER_SIZE <= n < entry_offset(b, entries_to_read(b)),
    ensures
        b.subrange(0, n).len() >= HEADER_SIZE,
        !directory_present(b.subrange(0, n)),
{
    let t = b.subrange(0, n);
    assert(t[4] == b[4] && t[5] == b[5] && t[6] == b[6] && t[7] == b[7]);
    assert(t[8] == b[8] && t[9] == b[9] && t[10] == b[10] && t[11] == b[11]);
    assert(declared_count(t) == declared_count(b));
    assert(declared_offset(t) == declared_offset(b));
}

} // verus!
