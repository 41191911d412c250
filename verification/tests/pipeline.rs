use pack_explode::decode::{decode_object, DecodeCache, IndexEntry};
use pack_explode::delta::apply_delta;
use pack_explode::entry::{DecodeError, Header, Kind};
use pack_explode::explode::{
    explode_entries, explode_with_sink, should_retire_bundle, Algorithm, ExplodeError,
    ObjectWrite, Sink, TraverseContext, WriteError,
};
use pack_explode::explode::{check_written_identity, WrittenCheck};
use pack_explode::hash::{compute_object_id, verify_file_checksum, ObjectKind};
use pack_explode::iter::Iter;
use pack_explode::safety::SafetyCheck;
use pack_explode::tree::normalize_tree;

use sha1::Digest;

fn sha1(data: &[u8]) -> Vec<u8> {
    sha1::Sha1::digest(data).to_vec()
}

fn loose_id(kind: &str, data: &[u8]) -> Vec<u8> {
    let mut buf = Vec::new();
    buf.extend_from_slice(kind.as_bytes());
    buf.push(b' ');
    buf.extend_from_slice(data.len().to_string().as_bytes());
    buf.push(0);
    buf.extend_from_slice(data);
    sha1(&buf)
}

fn entry_header(kind_bits: u8, size: usize) -> Vec<u8> {
    let mut v = Vec::new();
    let mut rest = size >> 4;
    let mut first = (kind_bits << 4) | (size & 0xF) as u8;
    if rest > 0 {
        first |= 0x80;
    }
    v.push(first);
    while rest > 0 {
        let mut b = (rest & 0x7F) as u8;
        rest >>= 7;
        if rest > 0 {
            b |= 0x80;
        }
        v.push(b);
    }
    v
}

fn compress(data: &[u8]) -> Vec<u8> {
    miniz_oxide::deflate::compress_to_vec_zlib(data, 6)
}

/// One raw entry: its header bytes followed by its payload bytes.
struct RawEntry {
    kind_bits: u8,
    size: usize,
    extra: Vec<u8>,
    payload: Vec<u8>,
}

fn blob_entry(data: &[u8]) -> RawEntry {
    RawEntry { kind_bits: 3, size: data.len(), extra: Vec::new(), payload: compress(data) }
}

fn tree_entry(data: &[u8]) -> RawEntry {
    RawEntry { kind_bits: 2, size: data.len(), extra: Vec::new(), payload: compress(data) }
}

/// Builds a whole archive and reports each entry's pack offset.
fn build_pack(entries: &[RawEntry]) -> (Vec<u8>, Vec<u64>) {
    let mut v = vec![b'P', b'A', b'C', b'K'];
    v.extend_from_slice(&2u32.to_be_bytes());
    v.extend_from_slice(&(entries.len() as u32).to_be_bytes());
    let mut offsets = Vec::new();
    for e in entries {
        offsets.push(v.len() as u64);
        v.extend_from_slice(&entry_header(e.kind_bits, e.size));
        v.extend_from_slice(&e.extra);
        v.extend_from_slice(&e.payload);
    }
    let trailer = sha1(&v);
    v.extend_from_slice(&trailer);
    (v, offsets)
}

fn ctx(check: SafetyCheck) -> TraverseContext {
    TraverseContext { algorithm: Algorithm::Lookup, thread_limit: None, check }
}

#[test]
fn stream_yields_declared_count() {
    // Two non-delta blobs of declared sizes five and seven.
    let (pack, _) = build_pack(&[blob_entry(b"hello"), blob_entry(b"goodbye")]);
    let (kind, count, mut it) = Iter::new_from_header(pack.clone()).unwrap();
    assert_eq!(kind, Kind::V2);
    assert_eq!(count, 2);
    let entries = it.read_all(2).unwrap();
    assert_eq!(entries.len(), 2);
    assert_eq!(entries[0].header, Header::Blob);
    assert_eq!(entries[0].decompressed, b"hello".to_vec());
    assert_eq!(entries[0].decompressed.len(), 5);
    assert_eq!(entries[1].decompressed.len(), 7);
    assert_eq!(entries[0].pack_offset, 12);
    // The offset after the last entry is where the trailing checksum begins.
    let mut it2 = Iter::new_from_first_entry(pack.clone(), 12);
    let mut total: u64 = 12;
    for _ in 0..2 {
        let e = it2.next_inner().unwrap();
        total = e.pack_offset + (e.compressed.len() as u64)
            + (entry_header(3, e.decompressed.len()).len() as u64);
    }
    assert_eq!(total, (pack.len() - 20) as u64);
}

#[test]
fn stream_handles_large_and_empty_payloads() {
    // A payload whose declared size needs a continuation byte, and an
    // empty one.
    let big: Vec<u8> = (0..300u32).map(|i| (i % 251) as u8).collect();
    let (pack, offs) = build_pack(&[blob_entry(&big), blob_entry(b"")]);
    let (_, count, mut it) = Iter::new_from_header(pack.clone()).unwrap();
    assert_eq!(count, 2);
    let entries = it.read_all(2).unwrap();
    assert_eq!(entries[0].decompressed, big);
    assert_eq!(entries[1].decompressed.len(), 0);
    let index = vec![
        IndexEntry { oid: loose_id("blob", &big), pack_offset: offs[0] },
        IndexEntry { oid: loose_id("blob", b""), pack_offset: offs[1] },
    ];
    let stats = explode_with_sink(&pack, &index, ctx(SafetyCheck::All)).unwrap();
    assert_eq!(stats.written, 2);
}

#[test]
fn stream_chokes_past_the_last_entry() {
    let (pack, _) = build_pack(&[blob_entry(b"hello")]);
    let (_, _, mut it) = Iter::new_from_header(pack).unwrap();
    it.read_all(1).unwrap();
    assert!(it.next_inner().is_err());
}

#[test]
fn stream_reports_zlib_failure() {
    let mut pack = vec![b'P', b'A', b'C', b'K'];
    pack.extend_from_slice(&2u32.to_be_bytes());
    pack.extend_from_slice(&1u32.to_be_bytes());
    pack.extend_from_slice(&entry_header(3, 5));
    pack.extend_from_slice(&[0xFF, 0xFF, 0xFF, 0xFF, 0xFF, 0xFF]);
    let t = sha1(&pack);
    pack.extend_from_slice(&t);
    let (_, _, mut it) = Iter::new_from_header(pack).unwrap();
    assert_eq!(it.next_inner().unwrap_err(), DecodeError::Zlib);
}

#[test]
fn file_checksum_detects_corruption() {
    let (pack, _) = build_pack(&[blob_entry(b"hello")]);
    assert!(verify_file_checksum(&pack));
    let mut bad = pack.clone();
    let n = bad.len();
    bad[n - 1] ^= 1;
    assert!(!verify_file_checksum(&bad));
}

#[test]
fn object_id_matches_independent_digest() {
    let id = compute_object_id(ObjectKind::Blob, &b"hello".to_vec());
    assert_eq!(id, loose_id("blob", b"hello"));
    let id2 = compute_object_id(ObjectKind::Tag, &Vec::new());
    assert_eq!(id2, loose_id("tag", b""));
}

#[test]
fn explode_writes_all_matching_objects() {
    let (pack, offs) = build_pack(&[blob_entry(b"hello"), blob_entry(b"goodbye")]);
    let index = vec![
        IndexEntry { oid: loose_id("blob", b"hello"), pack_offset: offs[0] },
        IndexEntry { oid: loose_id("blob", b"goodbye"), pack_offset: offs[1] },
    ];
    let stats = explode_with_sink(&pack, &index, ctx(SafetyCheck::All)).unwrap();
    assert_eq!(stats.written, 2);
    assert_eq!(stats.skipped, 0);
    assert_eq!(stats.notes.len(), 0);
}

#[test]
fn explode_reports_blob_mismatch_with_both_identities() {
    // The index expects one identity, the writer recomputes another.
    let (pack, offs) = build_pack(&[blob_entry(b"hello")]);
    let wrong = loose_id("blob", b"other");
    let index = vec![IndexEntry { oid: wrong.clone(), pack_offset: offs[0] }];
    let err = explode_with_sink(
        &pack,
        &index,
        ctx(SafetyCheck::SkipFileAndObjectChecksumVerification),
    )
    .unwrap_err();
    match err {
        ExplodeError::ObjectEncodeMismatch { kind, expected, actual } => {
            assert_eq!(kind, ObjectKind::Blob);
            assert_eq!(expected, wrong);
            assert_eq!(actual, loose_id("blob", b"hello"));
        },
        other => panic!("unexpected failure: {:?}", other),
    }
}

fn tree_bytes(mode: &str, name: &str, sha: &[u8]) -> Vec<u8> {
    let mut v = Vec::new();
    v.extend_from_slice(mode.as_bytes());
    v.push(b' ');
    v.extend_from_slice(name.as_bytes());
    v.push(0);
    v.extend_from_slice(sha);
    v
}

#[test]
fn normalize_tree_rewrites_noncanonical_modes() {
    let raw = tree_bytes("100664", "file", &[1; 20]);
    assert_eq!(normalize_tree(&raw).unwrap(), tree_bytes("100644", "file", &[1; 20]));
    let raw2 = tree_bytes("100640", "other", &[2; 20]);
    assert_eq!(normalize_tree(&raw2).unwrap(), tree_bytes("100644", "other", &[2; 20]));
    let canon = tree_bytes("40000", "dir", &[3; 20]);
    assert_eq!(normalize_tree(&canon).unwrap(), canon);
    let mut two = tree_bytes("100664", "a", &[4; 20]);
    two.extend_from_slice(&tree_bytes("100644", "b", &[5; 20]));
    let mut two_norm = tree_bytes("100644", "a", &[4; 20]);
    two_norm.extend_from_slice(&tree_bytes("100644", "b", &[5; 20]));
    assert_eq!(normalize_tree(&two).unwrap(), two_norm);
    // Not trees at all.
    assert_eq!(normalize_tree(&b"treedata".to_vec()), None);
    assert_eq!(normalize_tree(&b"100644 short\x00abc".to_vec()), None);
}

#[test]
fn check_written_identity_policy() {
    let raw = tree_bytes("100664", "file", &[1; 20]);
    let raw_id = loose_id("tree", &raw);
    let norm_id = loose_id("tree", &tree_bytes("100644", "file", &[1; 20]));
    assert_eq!(
        check_written_identity(ObjectKind::Tree, &raw, &raw_id, &raw_id),
        WrittenCheck::Accept
    );
    assert_eq!(
        check_written_identity(ObjectKind::Tree, &raw, &raw_id, &norm_id),
        WrittenCheck::AcceptWithNote
    );
    let blob = b"hello".to_vec();
    assert_eq!(
        check_written_identity(
            ObjectKind::Blob,
            &blob,
            &loose_id("blob", b"hello"),
            &loose_id("blob", b"other")
        ),
        WrittenCheck::Reject
    );
}

struct NormalizingWriter;

impl ObjectWrite for NormalizingWriter {
    fn write_buf(&self, kind: ObjectKind, data: &Vec<u8>) -> Result<Vec<u8>, WriteError> {
        if matches!(kind, ObjectKind::Tree) {
            if let Some(nd) = normalize_tree(data) {
                return Ok(compute_object_id(kind, &nd));
            }
        }
        Ok(compute_object_id(kind, data))
    }
}

#[test]
fn tree_normalization_is_informational_under_every_level() {
    // The pack holds a tree with a non-canonical file mode; the index
    // expects the identity of those packed bytes; the writer persists the
    // normalized form and so recomputes a different identity. The
    // difference is reported as a note, never as an error.
    let raw = tree_bytes("100664", "file", &[7; 20]);
    let (pack, offs) = build_pack(&[tree_entry(&raw)]);
    let expected = loose_id("tree", &raw);
    let normalized_id = loose_id("tree", &tree_bytes("100644", "file", &[7; 20]));
    let index = vec![IndexEntry { oid: expected.clone(), pack_offset: offs[0] }];
    for check in [
        SafetyCheck::All,
        SafetyCheck::SkipFileChecksumVerification,
        SafetyCheck::SkipFileAndObjectChecksumVerification,
        SafetyCheck::SkipFileAndObjectChecksumVerificationAndNoAbortOnDecodeError,
    ] {
        let stats = explode_entries(&NormalizingWriter, &pack, &index, ctx(check)).unwrap();
        assert_eq!(stats.written, 1);
        assert_eq!(stats.notes.len(), 1);
        assert_eq!(stats.notes[0].expected, expected);
        assert_eq!(stats.notes[0].actual, normalized_id);
    }
}

#[test]
fn unattributable_tree_mismatch_is_fatal() {
    // The index expects an identity the decoded tree does not have, and no
    // mode normalization explains the difference: fatal under every level.
    let (pack, offs) = build_pack(&[tree_entry(b"treedata")]);
    let wrong = loose_id("tree", b"normalized");
    let index = vec![IndexEntry { oid: wrong.clone(), pack_offset: offs[0] }];
    let err = explode_with_sink(
        &pack,
        &index,
        ctx(SafetyCheck::SkipFileAndObjectChecksumVerification),
    )
    .unwrap_err();
    assert!(matches!(err, ExplodeError::ObjectEncodeMismatch { .. }));
    let err2 = explode_with_sink(&pack, &index, ctx(SafetyCheck::All)).unwrap_err();
    assert!(matches!(err2, ExplodeError::ObjectEncodeMismatch { .. }));
}

fn pack_with_one_corrupt_entry() -> (Vec<u8>, Vec<IndexEntry>) {
    let mut v = vec![b'P', b'A', b'C', b'K'];
    v.extend_from_slice(&2u32.to_be_bytes());
    v.extend_from_slice(&3u32.to_be_bytes());
    let off0 = v.len() as u64;
    v.extend_from_slice(&entry_header(3, 5));
    v.extend_from_slice(&compress(b"hello"));
    let off1 = v.len() as u64;
    v.extend_from_slice(&entry_header(3, 5));
    v.extend_from_slice(&[0xFF, 0xFF, 0xFF, 0xFF]);
    let off2 = v.len() as u64;
    v.extend_from_slice(&entry_header(3, 7));
    v.extend_from_slice(&compress(b"goodbye"));
    let t = sha1(&v);
    v.extend_from_slice(&t);
    let index = vec![
        IndexEntry { oid: loose_id("blob", b"hello"), pack_offset: off0 },
        IndexEntry { oid: loose_id("blob", b"bogus"), pack_offset: off1 },
        IndexEntry { oid: loose_id("blob", b"goodbye"), pack_offset: off2 },
    ];
    (v, index)
}

#[test]
fn safety_policy_all_aborts_on_corrupt_entry() {
    let (pack, index) = pack_with_one_corrupt_entry();
    let err = explode_with_sink(&pack, &index, ctx(SafetyCheck::All)).unwrap_err();
    assert_eq!(
        match err {
            ExplodeError::Decode { err } => err,
            other => panic!("unexpected failure: {:?}", other),
        },
        DecodeError::Zlib
    );
}

#[test]
fn safety_policy_relaxed_skips_exactly_one() {
    let (pack, index) = pack_with_one_corrupt_entry();
    let stats = explode_with_sink(
        &pack,
        &index,
        ctx(SafetyCheck::SkipFileAndObjectChecksumVerificationAndNoAbortOnDecodeError),
    )
    .unwrap();
    assert_eq!(stats.written, 2);
    assert_eq!(stats.skipped, 1);
}

#[test]
fn sink_runs_are_idempotent() {
    let (pack, index) = pack_with_one_corrupt_entry();
    let level = SafetyCheck::SkipFileAndObjectChecksumVerificationAndNoAbortOnDecodeError;
    let a = explode_with_sink(&pack, &index, ctx(level)).unwrap();
    let b = explode_with_sink(&pack, &index, ctx(level)).unwrap();
    assert_eq!(a.written, b.written);
    assert_eq!(a.skipped, b.skipped);
    assert_eq!(a.notes.len(), b.notes.len());
    // A verify-only run never retires the source bundle.
    assert!(!should_retire_bundle(true, false));
    assert!(should_retire_bundle(true, true));
    assert!(!should_retire_bundle(false, true));
}

#[test]
fn thread_limit_does_not_change_the_verdict() {
    let (pack, offs) = build_pack(&[blob_entry(b"hello"), blob_entry(b"goodbye")]);
    let index = vec![
        IndexEntry { oid: loose_id("blob", b"hello"), pack_offset: offs[0] },
        IndexEntry { oid: loose_id("blob", b"goodbye"), pack_offset: offs[1] },
    ];
    let mut one = ctx(SafetyCheck::All);
    one.thread_limit = Some(1);
    let mut many = ctx(SafetyCheck::All);
    many.thread_limit = Some(8);
    let a = explode_with_sink(&pack, &index, one).unwrap();
    let b = explode_with_sink(&pack, &index, many).unwrap();
    assert_eq!(a.written, b.written);
    assert_eq!(a.skipped, b.skipped);
}

#[test]
fn apply_delta_copies_and_inserts() {
    // base "hello world"; copy six bytes from position six, insert "s!".
    let base = b"hello world".to_vec();
    let mut delta = vec![11u8, 7u8];
    delta.extend_from_slice(&[0x91, 6, 5]);
    delta.push(2);
    delta.extend_from_slice(b"s!");
    let out = apply_delta(&base, &delta).unwrap();
    assert_eq!(out, b"worlds!".to_vec());
}

#[test]
fn apply_delta_rejects_wrong_base_size() {
    let base = b"hello".to_vec();
    let delta = vec![4u8, 0u8];
    assert_eq!(apply_delta(&base, &delta), Err(DecodeError::Delta));
}

#[test]
fn apply_delta_rejects_reserved_opcode() {
    let base = b"hello".to_vec();
    let delta = vec![5u8, 1u8, 0u8];
    assert_eq!(apply_delta(&base, &delta), Err(DecodeError::Delta));
}

#[test]
fn apply_delta_rejects_wrong_result_size() {
    let base = b"hello".to_vec();
    let mut delta = vec![5u8, 9u8];
    delta.push(2);
    delta.extend_from_slice(b"ab");
    assert_eq!(apply_delta(&base, &delta), Err(DecodeError::Delta));
}

#[test]
fn decode_resolves_offset_delta_chain() {
    let base_data = b"hello world".to_vec();
    let mut delta = vec![11u8, 7u8];
    delta.extend_from_slice(&[0x91, 6, 5]);
    delta.push(2);
    delta.extend_from_slice(b"s!");

    let base_entry = blob_entry(&base_data);
    // The delta entry sits right after the base; its distance is its own
    // offset minus the base's offset.
    let base_len = (entry_header(3, base_data.len()).len() + base_entry.payload.len()) as u64;
    let mut extra = Vec::new();
    // distance fits one byte only when below 128; encode two bytes if not
    if base_len < 128 {
        extra.push(base_len as u8);
    } else {
        extra.push(0x80 | ((base_len >> 7) as u8 - 1));
        extra.push((base_len & 0x7F) as u8);
    }
    let delta_entry = RawEntry {
        kind_bits: 6,
        size: delta.len(),
        extra,
        payload: compress(&delta),
    };
    let (pack, offs) = build_pack(&[base_entry, delta_entry]);
    let index = vec![
        IndexEntry { oid: loose_id("blob", &base_data), pack_offset: offs[0] },
        IndexEntry { oid: loose_id("blob", b"worlds!"), pack_offset: offs[1] },
    ];
    let mut cache = DecodeCache::new(16);
    let (kind, data) = decode_object(&pack, &index, offs[1], &mut cache).unwrap();
    assert_eq!(kind, ObjectKind::Blob);
    assert_eq!(data, b"worlds!".to_vec());
    // The whole archive also explodes cleanly.
    let stats = explode_with_sink(&pack, &index, ctx(SafetyCheck::All)).unwrap();
    assert_eq!(stats.written, 2);
}

#[test]
fn decode_resolves_ref_delta_through_the_index() {
    let base_data = b"hello world".to_vec();
    let base_id = loose_id("blob", &base_data);
    let mut delta = vec![11u8, 7u8];
    delta.extend_from_slice(&[0x91, 6, 5]);
    delta.push(2);
    delta.extend_from_slice(b"s!");
    let delta_entry = RawEntry {
        kind_bits: 7,
        size: delta.len(),
        extra: base_id.clone(),
        payload: compress(&delta),
    };
    let (pack, offs) = build_pack(&[blob_entry(&base_data), delta_entry]);
    let index = vec![
        IndexEntry { oid: base_id, pack_offset: offs[0] },
        IndexEntry { oid: loose_id("blob", b"worlds!"), pack_offset: offs[1] },
    ];
    let mut cache = DecodeCache::new(16);
    let (kind, data) = decode_object(&pack, &index, offs[1], &mut cache).unwrap();
    assert_eq!(kind, ObjectKind::Blob);
    assert_eq!(data, b"worlds!".to_vec());
}

#[test]
fn decode_rejects_unresolvable_base() {
    // An offset delta reaching before the start of the archive.
    let mut delta = vec![1u8, 1u8, 1u8, b'x'];
    delta[0] = 1;
    let delta_entry = RawEntry {
        kind_bits: 6,
        size: delta.len(),
        extra: vec![0x7F],
        payload: compress(&delta),
    };
    let (pack, offs) = build_pack(&[delta_entry]);
    let index = vec![IndexEntry { oid: vec![0; 20], pack_offset: offs[0] }];
    let mut cache = DecodeCache::new(16);
    assert_eq!(
        decode_object(&pack, &index, offs[0], &mut cache).unwrap_err(),
        DecodeError::BadDeltaBase
    );
    // A ref delta naming an identity the index does not know.
    let delta_entry2 = RawEntry {
        kind_bits: 7,
        size: 4,
        extra: vec![9; 20],
        payload: compress(&[1, 1, 1, b'x']),
    };
    let (pack2, offs2) = build_pack(&[delta_entry2]);
    let index2 = vec![IndexEntry { oid: vec![0; 20], pack_offset: offs2[0] }];
    let mut cache2 = DecodeCache::new(16);
    assert_eq!(
        decode_object(&pack2, &index2, offs2[0], &mut cache2).unwrap_err(),
        DecodeError::BadDeltaBase
    );
}

struct FailingWriter;

impl ObjectWrite for FailingWriter {
    fn write_buf(&self, _kind: ObjectKind, _data: &Vec<u8>) -> Result<Vec<u8>, WriteError> {
        Err(WriteError {})
    }
}

#[test]
fn writer_failure_is_always_fatal() {
    let (pack, offs) = build_pack(&[blob_entry(b"hello")]);
    let oid = loose_id("blob", b"hello");
    let index = vec![IndexEntry { oid: oid.clone(), pack_offset: offs[0] }];
    let level = SafetyCheck::SkipFileAndObjectChecksumVerificationAndNoAbortOnDecodeError;
    let err = explode_entries(&FailingWriter, &pack, &index, ctx(level)).unwrap_err();
    match err {
        ExplodeError::Write { kind, id } => {
            assert_eq!(kind, ObjectKind::Blob);
            assert_eq!(id, oid);
        },
        other => panic!("unexpected failure: {:?}", other),
    }
}

#[test]
fn sink_traversal_through_the_writer_capability() {
    let (pack, offs) = build_pack(&[blob_entry(b"hello")]);
    let index = vec![IndexEntry { oid: loose_id("blob", b"hello"), pack_offset: offs[0] }];
    let stats = explode_entries(&Sink, &pack, &index, ctx(SafetyCheck::All)).unwrap();
    assert_eq!(stats.written, 1);
    assert_eq!(stats.skipped, 0);
}

#[test]
fn explode_verifies_file_checksum_under_all() {
    let (mut pack, offs) = build_pack(&[blob_entry(b"hello")]);
    let n = pack.len();
    pack[n - 1] ^= 1;
    let index = vec![IndexEntry { oid: loose_id("blob", b"hello"), pack_offset: offs[0] }];
    let err = explode_with_sink(&pack, &index, ctx(SafetyCheck::All)).unwrap_err();
    assert!(matches!(err, ExplodeError::Checksum));
    // The same archive passes when the file checksum is skipped.
    let stats =
        explode_with_sink(&pack, &index, ctx(SafetyCheck::SkipFileChecksumVerification)).unwrap();
    assert_eq!(stats.written, 1);
}
