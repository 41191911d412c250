use pack_explode::entry::{parse_archive_header, parse_entry_header, DecodeError, Header, Kind};
use pack_explode::safety::SafetyCheck;

fn archive_header(version: u32, count: u32) -> Vec<u8> {
    let mut v = vec![b'P', b'A', b'C', b'K'];
    v.extend_from_slice(&version.to_be_bytes());
    v.extend_from_slice(&count.to_be_bytes());
    v
}

#[test]
fn archive_header_v2() {
    let d = archive_header(2, 7);
    assert_eq!(parse_archive_header(&d), Ok((Kind::V2, 7)));
}

#[test]
fn archive_header_v3() {
    let d = archive_header(3, 0);
    assert_eq!(parse_archive_header(&d), Ok((Kind::V3, 0)));
}

#[test]
fn archive_header_bad_magic() {
    let mut d = archive_header(2, 1);
    d[0] = b'Q';
    assert_eq!(parse_archive_header(&d), Err(DecodeError::BadMagic));
}

#[test]
fn archive_header_bad_version() {
    let d = archive_header(9, 1);
    assert_eq!(parse_archive_header(&d), Err(DecodeError::UnsupportedVersion));
}

#[test]
fn archive_header_truncated() {
    let d = vec![b'P', b'A', b'C', b'K', 0, 0];
    assert_eq!(parse_archive_header(&d), Err(DecodeError::Truncated));
}

#[test]
fn entry_header_blob_small() {
    // kind 3 (blob), size 5, no continuation
    let d = vec![0x35u8];
    let (h, size, next) = parse_entry_header(&d, 0).unwrap();
    assert_eq!(h, Header::Blob);
    assert_eq!(size, 5);
    assert_eq!(next, 1);
}

#[test]
fn entry_header_blob_multibyte_size() {
    // size 300 = 12 + 18 * 16: first byte carries 12, continuation carries 18
    let d = vec![0x80 | 0x30 | 0x0C, 18u8];
    let (h, size, next) = parse_entry_header(&d, 0).unwrap();
    assert_eq!(h, Header::Blob);
    assert_eq!(size, 300);
    assert_eq!(next, 2);
}

#[test]
fn entry_header_commit_tree_tag() {
    assert_eq!(parse_entry_header(&vec![0x12u8], 0).unwrap().0, Header::Commit);
    assert_eq!(parse_entry_header(&vec![0x23u8], 0).unwrap().0, Header::Tree);
    assert_eq!(parse_entry_header(&vec![0x41u8], 0).unwrap().0, Header::Tag);
}

#[test]
fn entry_header_bad_kind() {
    assert_eq!(parse_entry_header(&vec![0x05u8], 0), Err(DecodeError::BadEntryKind));
    assert_eq!(parse_entry_header(&vec![0x55u8], 0), Err(DecodeError::BadEntryKind));
}

#[test]
fn entry_header_truncated_size() {
    // continuation bit set but no next byte
    let d = vec![0x80 | 0x35u8];
    assert_eq!(parse_entry_header(&d, 0), Err(DecodeError::Truncated));
}

#[test]
fn entry_header_oversize() {
    // a size whose encoding runs past sixty-four bits
    let mut d = vec![0x80 | 0x30 | 0x0F];
    for _ in 0..9 {
        d.push(0xFF);
    }
    d.push(0x7F);
    assert_eq!(parse_entry_header(&d, 0), Err(DecodeError::Oversize));
}

#[test]
fn entry_header_ofs_delta() {
    // kind 6, size 4, distance 200 = (0 + 1) * 128 + 72 with high bit on the first byte
    let d = vec![0x64u8, 0x80, 0x48];
    let (h, size, next) = parse_entry_header(&d, 0).unwrap();
    assert_eq!(h, Header::OfsDelta { base_distance: 200 });
    assert_eq!(size, 4);
    assert_eq!(next, 3);
}

#[test]
fn entry_header_ofs_delta_one_byte() {
    let d = vec![0x64u8, 0x07];
    let (h, _, next) = parse_entry_header(&d, 0).unwrap();
    assert_eq!(h, Header::OfsDelta { base_distance: 7 });
    assert_eq!(next, 2);
}

#[test]
fn entry_header_ref_delta() {
    let mut d = vec![0x73u8];
    let id: Vec<u8> = (0..20).collect();
    d.extend_from_slice(&id);
    let (h, size, next) = parse_entry_header(&d, 0).unwrap();
    assert_eq!(h, Header::RefDelta { base_id: id });
    assert_eq!(size, 3);
    assert_eq!(next, 21);
}

#[test]
fn entry_header_ref_delta_truncated() {
    let d = vec![0x73u8, 1, 2, 3];
    assert_eq!(parse_entry_header(&d, 0), Err(DecodeError::Truncated));
}

#[test]
fn safety_check_variants() {
    let v = SafetyCheck::variants();
    assert_eq!(v.len(), 4);
    assert_eq!(v[0], "all");
    assert_eq!(v[1], "skip-file-checksum");
    assert_eq!(v[2], "skip-file-and-object-checksum");
    assert_eq!(v[3], "skip-file-and-object-checksum-and-no-abort-on-decode");
}

#[test]
fn safety_check_flags() {
    assert!(SafetyCheck::All.verifies_file_checksum());
    assert!(SafetyCheck::All.verifies_object_checksum());
    assert!(!SafetyCheck::All.tolerates_decode_errors());
    assert!(!SafetyCheck::SkipFileChecksumVerification.verifies_file_checksum());
    assert!(SafetyCheck::SkipFileChecksumVerification.verifies_object_checksum());
    assert!(!SafetyCheck::SkipFileAndObjectChecksumVerification.verifies_object_checksum());
    assert!(
        SafetyCheck::SkipFileAndObjectChecksumVerificationAndNoAbortOnDecodeError
            .tolerates_decode_errors()
    );
}
