use wad::{
    decode_entry, decode_header, read_i32_le, LumpName, LumpNameError, Signature, Wad,
    WadDecodeError,
};

const NAMES: [&str; 10] = [
    "PLAYPAL", "COLORMAP", "ENDOOM", "DEMO1", "DEMO2", "DEMO3", "E1M1", "THINGS", "LINEDEFS",
    "SIDEDEFS",
];

fn put_i32(out: &mut Vec<u8>, v: i32) {
    out.extend_from_slice(&v.to_le_bytes());
}

fn put_name(out: &mut Vec<u8>, name: &str) {
    let mut buf = [0u8; 8];
    buf[..name.len()].copy_from_slice(name.as_bytes());
    out.extend_from_slice(&buf);
}

/// An archive with a small payload area followed by its directory.
fn fixture(names: &[&str]) -> Vec<u8> {
    let payload = 20usize;
    let dir = 12 + payload;
    let mut out = Vec::new();
    out.extend_from_slice(b"IWAD");
    put_i32(&mut out, names.len() as i32);
    put_i32(&mut out, dir as i32);
    out.extend(std::iter::repeat(0xAAu8).take(payload));
    for (i, name) in names.iter().enumerate() {
        put_i32(&mut out, 12 + i as i32);
        put_i32(&mut out, 100 * i as i32 + 7);
        put_name(&mut out, name);
    }
    out
}

#[test]
fn test_decode_doom_wad() {
    let wad = Wad::from_bytes(&fixture(&NAMES)).unwrap();
    let e1m1 = wad.directory.get(6).unwrap().name.to_string();
    assert!(e1m1 == "E1M1".to_string(), "The 6th name was not E1M1, found: {:?}", e1m1);
}

#[test]
fn directory_length_equals_header_count() {
    let wad = Wad::from_bytes(&fixture(&NAMES)).unwrap();
    assert_eq!(wad.directory.len(), 10);
    assert_eq!(wad.signature.to_string(), "IWAD");
    let empty = Wad::from_bytes(&fixture(&[])).unwrap();
    assert_eq!(empty.directory.len(), 0);
}

#[test]
fn entries_follow_disk_order() {
    let wad = Wad::from_bytes(&fixture(&NAMES)).unwrap();
    for (i, entry) in wad.directory.iter().enumerate() {
        assert_eq!(entry.name.to_string(), NAMES[i]);
        assert_eq!(entry.start.0, 12 + i as i32);
        assert_eq!(entry.size.0, 100 * i as i32 + 7);
    }
}

#[test]
fn reserved_fields_are_zero_and_real_size_is_size() {
    let wad = Wad::from_bytes(&fixture(&NAMES)).unwrap();
    for entry in &wad.directory {
        assert_eq!(entry.real_size.0, entry.size.0);
        assert_eq!(entry.kind.0, 0);
        assert_eq!(entry.compression.0, 0);
        assert_eq!(entry.padding, 0);
    }
}

#[test]
fn truncated_header_is_a_short_read() {
    let data = fixture(&NAMES);
    for n in 0..12 {
        let r = Wad::from_bytes(&data[..n]);
        assert!(matches!(r, Err(WadDecodeError::FailedToReadHeader(_))));
    }
}

#[test]
fn truncated_directory_is_a_short_read() {
    let data = fixture(&NAMES);
    let end = data.len();
    for n in [end - 1, end - 15, end - 16, 12] {
        let r = Wad::from_bytes(&data[..n]);
        assert!(matches!(r, Err(WadDecodeError::FailedToReadDirectory(_))));
    }
    assert!(Wad::from_bytes(&data).is_ok());
}

#[test]
fn negative_count_reads_no_entries() {
    let mut data = fixture(&NAMES);
    data[4..8].copy_from_slice(&(-3i32).to_le_bytes());
    let wad = Wad::from_bytes(&data).unwrap();
    assert!(wad.directory.is_empty());
}

#[test]
fn negative_directory_offset_fails() {
    let mut data = fixture(&NAMES);
    data[8..12].copy_from_slice(&(-16i32).to_le_bytes());
    let r = Wad::from_bytes(&data);
    assert!(matches!(r, Err(WadDecodeError::FailedToReadDirectory(_))));
}

#[test]
fn little_endian_integers() {
    assert_eq!(read_i32_le(&[0x78, 0x56, 0x34, 0x12], 0), 0x1234_5678);
    assert_eq!(read_i32_le(&[0xFF, 0xFF, 0xFF, 0xFF], 0), -1);
    assert_eq!(read_i32_le(&[9, 0x00, 0x00, 0x00, 0x80], 1), i32::MIN);
}

#[test]
fn header_fields() {
    let h = decode_header(&fixture(&NAMES)[..12]).unwrap();
    assert_eq!(h.signature.0, *b"IWAD");
    assert_eq!(h.count, 10);
    assert_eq!(h.directory_offset, 32);
    assert!(matches!(decode_header(&[0u8; 11]), Err(WadDecodeError::CouldNotDecodeHeader)));
    assert!(matches!(decode_header(&[0u8; 13]), Err(WadDecodeError::CouldNotDecodeHeader)));
}

#[test]
fn entry_fields() {
    let mut rec = Vec::new();
    put_i32(&mut rec, -2);
    put_i32(&mut rec, 4096);
    put_name(&mut rec, "MAP01");
    let e = decode_entry(&rec).unwrap();
    assert_eq!(e.start.0, -2);
    assert_eq!(e.size.0, 4096);
    assert_eq!(e.real_size.0, 4096);
    assert_eq!(e.name.0, *b"MAP01\0\0\0");
    assert!(matches!(decode_entry(&rec[..15]), Err(WadDecodeError::CouldNotDecodeDirectory)));
}

#[test]
fn lump_name_round_trip() {
    for s in ["E1M1", "", "A", "SIDEDEFS", "Ωé"] {
        let name = LumpName::from_string(s.to_string()).ok().unwrap();
        assert_eq!(name.to_string(), s);
    }
    let name = LumpName::from_string("E1M1".to_string()).ok().unwrap();
    assert_eq!(name.0, *b"E1M1\0\0\0\0");
}

#[test]
fn lump_name_length_boundary() {
    assert!(LumpName::from_string("ABCDEFGH".to_string()).is_ok());
    assert!(matches!(
        LumpName::from_string("ABCDEFGHI".to_string()),
        Err(LumpNameError::TooLarge)
    ));
    // five two-byte characters: five characters, ten bytes
    assert!(matches!(
        LumpName::from_string("ééééé".to_string()),
        Err(LumpNameError::TooLarge)
    ));
}

#[test]
fn lump_name_strips_only_trailing_nuls() {
    assert_eq!(LumpName(*b"\0AB\0\0\0\0\0").to_string(), "\0AB");
    assert_eq!(LumpName([0; 8]).to_string(), "");
}

#[test]
fn malformed_text_is_replaced() {
    assert_eq!(Signature([b'P', b'W', 0xFF, b'D']).to_string(), "PW\u{FFFD}D");
    assert_eq!(LumpName([b'A', 0xC3, 0, 0, 0, 0, 0, 0]).to_string(), "A\u{FFFD}");
}
