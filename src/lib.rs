//! Reading the directory of a WAD archive: a fixed 12-byte header followed by
//! a flat table of 16-byte lump descriptors, all little-endian.

pub mod archive;
pub mod error;
pub mod layout;
pub mod name;

pub use archive::{
    declared_count, declared_offset, directory_present, entries_to_read, entry_offset,
    lemma_truncated_directory, lemma_truncated_header, Wad,
};
pub use error::WadDecodeError;
pub use layout::{
    decode_entry, decode_header, entry_of, header_of, le_i32_at, read_i32_le, Compression, Entry,
    EntryType, Header, Location, Size, ENTRY_SIZE, HEADER_SIZE,
};
pub use name::{
    lemma_name_round_trip, lossy_of, trim_zeros, zero_padded, LumpName, LumpNameError, Signature,
};
