//! Decoding of the archive's fixed 12-byte header and of one entry's
//! variable-length header: the object type tag, the declared decompressed
//! size and, for delta entries, the reference to the base object.

use vstd::prelude::*;
use vstd::arithmetic::power2::pow2;
use vstd::arithmetic::power2::lemma2_to64;
use vstd::arithmetic::power2::lemma2_to64_rest;
use vstd::arithmetic::power2::lemma_pow2_adds;
use vstd::arithmetic::power2::lemma_pow2_strictly_increases;

verus! {

/// The format version of an archive, recorded in its leading header.
#[derive(Clone, Copy, Debug, PartialEq, Eq, Structural)]
pub enum Kind {
    V2,
    V3,
}

/// Everything that can go wrong while decoding headers, payloads or deltas.
#[derive(Clone, Copy, Debug, PartialEq, Eq, Structural)]
pub enum DecodeError {
    /// The data ended before a complete header or payload was read.
    Truncated,
    /// The archive does not start with the expected magic bytes.
    BadMagic,
    /// The archive's version field holds an unsupported value.
    UnsupportedVersion,
    /// The entry's type tag is not one of the recognized object kinds.
    BadEntryKind,
    /// A variable-length integer does not fit into 64 bits.
    Oversize,
    /// A delta entry's base reference does not point at an earlier entry.
    BadDeltaBase,
    /// The compressed payload could not be decompressed to the declared size.
    Zlib,
    /// A delta payload is malformed or does not match its base.
    Delta,
}

/// The decoded form of one entry's header.
#[derive(Clone, Debug, PartialEq, Eq)]
pub enum Header {
    Commit,
    Tree,
    Blob,
    Tag,
    /// A delta whose base is named by its content identity.
    RefDelta { base_id: Vec<u8> },
    /// A delta whose base starts `base_distance` bytes before this entry.
    OfsDelta { base_distance: u64 },
}

/// The mathematical model of a `Header`.
pub enum SpecHeader {
    Commit,
    Tree,
    Blob,
    Tag,
    RefDelta { base_id: Seq<u8> },
    OfsDelta { base_distance: nat },
}

impl View for Header {
    type V = SpecHeader;

    open spec fn view(&self) -> SpecHeader {
        match self {
            Header::Commit => SpecHeader::Commit,
            Header::Tree => SpecHeader::Tree,
            Header::Blob => SpecHeader::Blob,
            Header::Tag => SpecHeader::Tag,
            Header::RefDelta { base_id } => SpecHeader::RefDelta { base_id: base_id@ },
            Header::OfsDelta { base_distance } => SpecHeader::OfsDelta {
                base_distance: *base_distance as nat,
            },
        }
    }
}

impl SpecHeader {
    /// Whether this header stands for a full object rather than a delta.
    pub open spec fn is_plain(self) -> bool {
        match self {
            SpecHeader::Commit | SpecHeader::Tree | SpecHeader::Blob | SpecHeader::Tag => true,
            _ => false,
        }
    }
}

/// The big-endian 32-bit integer stored at position `i` of `d`.
pub open spec fn spec_be32(d: Seq<u8>, i: int) -> nat
    recommends
        0 <= i,
        i + 4 <= d.len(),
{
    d[i] as nat * 0x1000000 + d[i + 1] as nat * 0x10000 + d[i + 2] as nat * 0x100 + d[i
        + 3] as nat
}

/// What parsing the archive's 12-byte header yields: the format version and
/// the declared object count, or the reason the header is rejected.
pub open spec fn spec_parse_archive_header(d: Seq<u8>) -> Result<(Kind, u32), DecodeError> {
    if d.len() < 12 {
        Err(DecodeError::Truncated)
    } else if !(d[0] == 80 && d[1] == 65 && d[2] == 67 && d[3] == 75) {
        Err(DecodeError::BadMagic)
    } else if spec_be32(d, 4) == 2 {
        Ok((Kind::V2, spec_be32(d, 8) as u32))
    } else if spec_be32(d, 4) == 3 {
        Ok((Kind::V3, spec_be32(d, 8) as u32))
    } else {
        Err(DecodeError::UnsupportedVersion)
    }
}

fn be32(d: &Vec<u8>, i: usize) -> (r: u32)
    requires
        i + 4 <= d@.len(),
    ensures
        r as nat == spec_be32(d@, i as int),
{
    let _len: usize = d.len();
    (d[i] as u32) * 0x1000000 + (d[i + 1] as u32) * 0x10000 + (d[i + 2] as u32) * 0x100 + (d[i
        + 3] as u32)
}

/// Parses the fixed 12-byte archive header: the magic bytes, the format
/// version and the big-endian object count.
pub fn parse_archive_header(d: &Vec<u8>) -> (r: Result<(Kind, u32), DecodeError>)
    ensures
        r == spec_parse_archive_header(d@),
{
    if d.len() < 12 {
        return Err(DecodeError::Truncated);
    }
    if !(d[0] == 80 && d[1] == 65 && d[2] == 67 && d[3] == 75) {
        return Err(DecodeError::BadMagic);
    }
    let version = be32(d, 4);
    let count = be32(d, 8);
    if version == 2 {
        Ok((Kind::V2, count))
    } else if version == 3 {
        Ok((Kind::V3, count))
    } else {
        Err(DecodeError::UnsupportedVersion)
    }
}

/// The outcome of reading one variable-length integer.
pub enum VarintResult {
    Done { value: nat, next: int },
    Truncated,
    Oversize,
}

/// The continuation bytes of an entry's size field: each byte contributes its
/// low seven bits, shifted further left than the one before; a set high bit
/// announces another byte. Values above `u64::MAX` are rejected.
pub open spec fn spec_size_tail(d: Seq<u8>, i: int, shift: nat, acc: nat) -> VarintResult
    decreases d.len() - i,
{
    if i < 0 || i >= d.len() {
        VarintResult::Truncated
    } else {
        let b = d[i];
        let acc2 = acc + (b as nat % 128) * pow2(shift);
        if acc2 > u64::MAX as nat {
            VarintResult::Oversize
        } else if b >= 128 {
            spec_size_tail(d, i + 1, shift + 7, acc2)
        } else {
            VarintResult::Done { value: acc2, next: i + 1 }
        }
    }
}

/// The negative base distance of an offset-delta entry: big-endian groups of
/// seven bits, where every continuation adds one before shifting, so that no
/// distance has two encodings. Values above `u64::MAX` are rejected.
pub open spec fn spec_ofs_tail(d: Seq<u8>, i: int, acc: nat) -> VarintResult
    decreases d.len() - i,
{
    if i < 0 || i >= d.len() {
        VarintResult::Truncated
    } else {
        let b = d[i];
        let acc2 = (acc + 1) * 128 + (b as nat % 128);
        if acc2 > u64::MAX as nat {
            VarintResult::Oversize
        } else if b >= 128 {
            spec_ofs_tail(d, i + 1, acc2)
        } else {
            VarintResult::Done { value: acc2, next: i + 1 }
        }
    }
}

/// The whole base-distance field, starting at its first byte.
pub open spec fn spec_ofs(d: Seq<u8>, i: int) -> VarintResult {
    if i < 0 || i >= d.len() {
        VarintResult::Truncated
    } else {
        let b = d[i];
        if b >= 128 {
            spec_ofs_tail(d, i + 1, (b as nat % 128))
        } else {
            VarintResult::Done { value: (b as nat % 128), next: i + 1 }
        }
    }
}

/// What parsing one entry header at position `i` of `d` yields: the header,
/// the declared decompressed size, and the position right past the header.
pub open spec fn spec_entry_at(d: Seq<u8>, i: int) -> Result<
    (SpecHeader, nat, int),
    DecodeError,
> {
    if i < 0 || i >= d.len() {
        Err(DecodeError::Truncated)
    } else {
        let b = d[i];
        let kind = (b / 16) % 8;
        let sz = if b >= 128 {
            spec_size_tail(d, i + 1, 4, (b as nat % 16))
        } else {
            VarintResult::Done { value: (b as nat % 16), next: i + 1 }
        };
        match sz {
            VarintResult::Truncated => Err(DecodeError::Truncated),
            VarintResult::Oversize => Err(DecodeError::Oversize),
            VarintResult::Done { value: size, next: j } => {
                if kind == 1 {
                    Ok((SpecHeader::Commit, size, j))
                } else if kind == 2 {
                    Ok((SpecHeader::Tree, size, j))
                } else if kind == 3 {
                    Ok((SpecHeader::Blob, size, j))
                } else if kind == 4 {
                    Ok((SpecHeader::Tag, size, j))
                } else if kind == 6 {
                    match spec_ofs(d, j) {
                        VarintResult::Truncated => Err(DecodeError::Truncated),
                        VarintResult::Oversize => Err(DecodeError::Oversize),
                        VarintResult::Done { value: dist, next: k } => Ok(
                            (SpecHeader::OfsDelta { base_distance: dist }, size, k),
                        ),
                    }
                } else if kind == 7 {
                    if j + 20 <= d.len() {
                        Ok((SpecHeader::RefDelta { base_id: d.subrange(j, j + 20) }, size, j + 20))
                    } else {
                        Err(DecodeError::Truncated)
                    }
                } else {
                    Err(DecodeError::BadEntryKind)
                }
            },
        }
    }
}

/// Reads a little-endian base-128 run of continuation bytes, starting from
/// an already accumulated value `acc0` whose next group would be weighted by
/// two to the `shift0`.
pub(crate) fn read_base128(
    d: &Vec<u8>,
    start: usize,
    acc0: u64,
    mult0: u64,
    Ghost(shift0): Ghost<nat>,
) -> (r: Result<(u64, usize), DecodeError>)
    requires
        start <= d@.len(),
        shift0 <= 60,
        mult0 as nat == pow2(shift0),
    ensures
        match spec_size_tail(d@, start as int, shift0, acc0 as nat) {
            VarintResult::Done { value, next } => r matches Ok(p) && p.0 as nat == value
                && p.1 as int == next && p.1 <= d@.len(),
            VarintResult::Truncated => r == Err::<(u64, usize), DecodeError>(DecodeError::Truncated),
            VarintResult::Oversize => r == Err::<(u64, usize), DecodeError>(DecodeError::Oversize),
        },
{
    let mut cur: usize = start;
    let mut acc: u64 = acc0;
    let ghost mut shift: nat = shift0;
    let mut mult: u64 = mult0;
    let mut mult_ok: bool = true;
    loop
        invariant
            start <= cur <= d@.len(),
            spec_size_tail(d@, start as int, shift0, acc0 as nat) == spec_size_tail(
                d@,
                cur as int,
                shift,
                acc as nat,
            ),
            mult_ok ==> mult as nat == pow2(shift),
            !mult_ok ==> shift >= 64,
        decreases d@.len() - cur,
    {
        if cur >= d.len() {
            return Err(DecodeError::Truncated);
        }
        let b = d[cur];
        let low = b % 128;
        let ghost acc2: nat = acc as nat + (b as nat % 128) * pow2(shift);
        if low > 0 {
            if !mult_ok {
                proof {
                    if shift > 64 {
                        lemma_pow2_strictly_increases(64, shift);
                    }
                    lemma2_to64();
                    assert(acc2 >= 1 * pow2(shift)) by (nonlinear_arith)
                        requires
                            acc2 == acc as nat + (b as nat % 128) * pow2(shift),
                            b as nat % 128 >= 1,
                            pow2(shift) >= 0,
                    ;
                }
                return Err(DecodeError::Oversize);
            }
            let piece = match (low as u64).checked_mul(mult) {
                Some(c) => c,
                None => {
                    proof {
                        assert(acc2 > u64::MAX as nat);
                    }
                    return Err(DecodeError::Oversize);
                },
            };
            match acc.checked_add(piece) {
                Some(a2) => {
                    acc = a2;
                },
                None => {
                    return Err(DecodeError::Oversize);
                },
            }
        } else {
            proof {
                assert(b as nat % 128 == 0);
                assert((b as nat % 128) * pow2(shift) == 0) by (nonlinear_arith)
                    requires
                        b as nat % 128 == 0,
                ;
                assert(acc2 == acc as nat);
            }
        }
        if b < 128 {
            return Ok((acc, cur + 1));
        }
        cur = cur + 1;
        proof {
            shift = shift + 7;
        }
        if mult_ok {
            if mult <= 0x100000000000000 {
                proof {
                    lemma2_to64();
                    lemma2_to64_rest();
                    if shift - 7 > 56 {
                        lemma_pow2_strictly_increases(56, (shift - 7) as nat);
                    }
                    lemma_pow2_adds((shift - 7) as nat, 7);
                    if shift < 63 {
                        lemma_pow2_strictly_increases(shift, 63);
                    }
                }
                mult = mult * 128;
            } else {
                proof {
                    lemma2_to64_rest();
                    if shift - 7 < 56 {
                        lemma_pow2_strictly_increases((shift - 7) as nat, 56);
                    }
                    if shift < 64 {
                        lemma_pow2_strictly_increases(shift, 64);
                    }
                }
                mult_ok = false;
            }
        }
    }
}

fn read_ofs(d: &Vec<u8>, start: usize) -> (r: Result<(u64, usize), DecodeError>)
    requires
        start <= d@.len(),
    ensures
        match spec_ofs(d@, start as int) {
            VarintResult::Done { value, next } => r matches Ok(p) && p.0 as nat == value
                && p.1 as int == next && p.1 <= d@.len(),
            VarintResult::Truncated => r == Err::<(u64, usize), DecodeError>(DecodeError::Truncated),
            VarintResult::Oversize => r == Err::<(u64, usize), DecodeError>(DecodeError::Oversize),
        },
{
    if start >= d.len() {
        return Err(DecodeError::Truncated);
    }
    let b = d[start];
    let mut acc: u64 = (b % 128) as u64;
    let mut cur: usize = start + 1;
    if b < 128 {
        return Ok((acc, cur));
    }
    loop
        invariant
            start + 1 <= cur <= d@.len(),
            spec_ofs(d@, start as int) == spec_ofs_tail(d@, cur as int, acc as nat),
        decreases d@.len() - cur,
    {
        if cur >= d.len() {
            return Err(DecodeError::Truncated);
        }
        let c = d[cur];
        let a1 = match acc.checked_add(1) {
            Some(v) => v,
            None => {
                return Err(DecodeError::Oversize);
            },
        };
        let a2 = match a1.checked_mul(128) {
            Some(v) => v,
            None => {
                return Err(DecodeError::Oversize);
            },
        };
        let a3 = match a2.checked_add((c % 128) as u64) {
            Some(v) => v,
            None => {
                return Err(DecodeError::Oversize);
            },
        };
        acc = a3;
        if c < 128 {
            return Ok((acc, cur + 1));
        }
        cur = cur + 1;
    }
}

/// Parses one entry header at `pos`: the object type tag and declared
/// decompressed size from the self-terminating variable-length encoding, and
/// for delta entries the base reference that follows them.
pub fn parse_entry_header(d: &Vec<u8>, pos: usize) -> (r: Result<(Header, u64, usize), DecodeError>)
    ensures
        match spec_entry_at(d@, pos as int) {
            Ok((h, size, next)) => r matches Ok(t) && t.0@ == h && t.1 as nat == size
                && t.2 as int == next && t.2 <= d@.len(),
            Err(e) => r == Err::<(Header, u64, usize), DecodeError>(e),
        },
{
    if pos >= d.len() {
        return Err(DecodeError::Truncated);
    }
    let b = d[pos];
    let kind = (b / 16) % 8;
    proof {
        lemma2_to64();
    }
    let (size, after_size) = if b >= 128 {
        match read_base128(d, pos + 1, (b % 16) as u64, 16, Ghost(4nat)) {
            Ok(p) => p,
            Err(e) => {
                return Err(e);
            },
        }
    } else {
        ((b % 16) as u64, pos + 1)
    };
    if kind == 1 {
        Ok((Header::Commit, size, after_size))
    } else if kind == 2 {
        Ok((Header::Tree, size, after_size))
    } else if kind == 3 {
        Ok((Header::Blob, size, after_size))
    } else if kind == 4 {
        Ok((Header::Tag, size, after_size))
    } else if kind == 6 {
        match read_ofs(d, after_size) {
            Ok((dist, next)) => Ok((Header::OfsDelta { base_distance: dist }, size, next)),
            Err(e) => Err(e),
        }
    } else if kind == 7 {
        if d.len() - after_size >= 20 {
            let mut base_id: Vec<u8> = Vec::new();
            let mut k: usize = 0;
            while k < 20
                invariant
                    k <= 20,
                    after_size + 20 <= d@.len(),
                    d@.len() <= usize::MAX,
                    base_id@ == d@.subrange(after_size as int, after_size + k),
                decreases 20 - k,
            {
                base_id.push(d[after_size + k]);
                k = k + 1;
                proof {
                    assert(base_id@ == d@.subrange(after_size as int, after_size + k));
                }
            }
            Ok((Header::RefDelta { base_id }, size, after_size + 20))
        } else {
            Err(DecodeError::Truncated)
        }
    } else {
        Err(DecodeError::BadEntryKind)
    }
}

} // verus!
