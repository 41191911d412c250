//! Index-guided decoding of whole objects: an entry at a given pack offset
//! is decoded and, if it is a delta, its base is resolved transitively —
//! through a bounded cache when possible, by decoding afresh otherwise. A
//! base must start before the entry that refers to it, which also bounds
//! every chain.

use vstd::prelude::*;

use crate::delta::apply_delta;
use crate::delta::spec_apply_delta;
use crate::entry::DecodeError;
use crate::entry::Header;
use crate::entry::SpecHeader;
use crate::hash::ObjectKind;
use crate::hash::bytes_eq;
use crate::hash::copy_bytes;
use crate::iter::StepSpec;
use crate::iter::spec_step;
use crate::iter::step_at;
use crate::zlib::zlib_inflated;

verus! {

/// One record of the companion index: the identity its author recorded for
/// an object, and the byte offset where the object's entry starts.
#[derive(Clone, Debug)]
pub struct IndexEntry {
    /// The content identity the index expects for this object.
    pub oid: Vec<u8>,
    /// The byte offset of the object's entry within the archive.
    pub pack_offset: u64,
}

/// The pack offset of the first index record from position `i` on whose
/// identity is `id`.
pub open spec fn spec_lookup(index: Seq<IndexEntry>, id: Seq<u8>, i: int) -> Option<nat>
    decreases index.len() - i,
{
    if i < 0 || i >= index.len() {
        None
    } else if index[i].oid@ == id {
        Some(index[i].pack_offset as nat)
    } else {
        spec_lookup(index, id, i + 1)
    }
}

/// Finds the pack offset the index records for `id`.
pub fn lookup_offset(index: &Vec<IndexEntry>, id: &Vec<u8>) -> (r: Option<u64>)
    ensures
        match spec_lookup(index@, id@, 0) {
            Some(off) => r matches Some(o) && o as nat == off,
            None => r is None,
        },
{
    let n = index.len();
    let mut k: usize = 0;
    while k < n
        invariant
            k <= n,
            n == index@.len(),
            spec_lookup(index@, id@, 0) == spec_lookup(index@, id@, k as int),
        decreases n - k,
    {
        if bytes_eq(&index[k].oid, id) {
            return Some(index[k].pack_offset);
        }
        k = k + 1;
    }
    None
}

/// What fully decoding the entry at `off` yields: its object kind and
/// content, with any delta chain resolved against bases that start at
/// strictly smaller offsets. This bound is deliberate: offset deltas point
/// backward by construction of their encoding, and holding identity-named
/// bases to the same rule rules out reference cycles, which would
/// otherwise make chain resolution non-terminating; a delta whose base
/// starts at or after it is rejected as `BadDeltaBase`.
pub open spec fn spec_decode_at(d: Seq<u8>, index: Seq<IndexEntry>, off: nat) -> Result<
    (ObjectKind, Seq<u8>),
    DecodeError,
>
    decreases off,
{
    match spec_step(d, off as int) {
        StepSpec::Fail { err } => Err(err),
        StepSpec::Good { header, size, data_start, next } => {
            let data = zlib_inflated(d.skip(data_start));
            match header {
                SpecHeader::Commit => Ok((ObjectKind::Commit, data)),
                SpecHeader::Tree => Ok((ObjectKind::Tree, data)),
                SpecHeader::Blob => Ok((ObjectKind::Blob, data)),
                SpecHeader::Tag => Ok((ObjectKind::Tag, data)),
                SpecHeader::OfsDelta { base_distance } => {
                    if base_distance == 0 || base_distance > off {
                        Err(DecodeError::BadDeltaBase)
                    } else {
                        match spec_decode_at(d, index, (off - base_distance) as nat) {
                            Err(e) => Err(e),
                            Ok((k, base)) => match spec_apply_delta(base, data) {
                                Some(out) => Ok((k, out)),
                                None => Err(DecodeError::Delta),
                            },
                        }
                    }
                },
                SpecHeader::RefDelta { base_id } => {
                    match spec_lookup(index, base_id, 0) {
                        None => Err(DecodeError::BadDeltaBase),
                        Some(boff) => {
                            if boff >= off {
                                Err(DecodeError::BadDeltaBase)
                            } else {
                                match spec_decode_at(d, index, boff) {
                                    Err(e) => Err(e),
                                    Ok((k, base)) => match spec_apply_delta(base, data) {
                                        Some(out) => Ok((k, out)),
                                        None => Err(DecodeError::Delta),
                                    },
                                }
                            }
                        },
                    }
                },
            }
        },
    }
}

/// A bounded cache of already decoded objects, keyed by pack offset. It
/// deliberately evicts in first-in-first-out order and does not track
/// recency on a hit: eviction order is pure policy here, because every
/// stored record must hold exactly what decoding at its offset yields, so
/// a hit can never change what a traversal produces — the cache only
/// saves work.
pub struct DecodeCache {
    limit: usize,
    offsets: Vec<u64>,
    kinds: Vec<ObjectKind>,
    datas: Vec<Vec<u8>>,
}

impl DecodeCache {
    /// Every record agrees with decoding its offset afresh against this
    /// archive and index.
    pub closed spec fn ok(self, d: Seq<u8>, index: Seq<IndexEntry>) -> bool {
        &&& self.offsets@.len() == self.kinds@.len()
        &&& self.offsets@.len() == self.datas@.len()
        &&& forall|i: int|
            0 <= i < self.offsets@.len() ==> spec_decode_at(
                d,
                index,
                #[trigger] self.offsets@[i] as nat,
            ) == Ok::<(ObjectKind, Seq<u8>), DecodeError>(
                (self.kinds@[i], self.datas@[i]@),
            )
    }

    /// A fresh, empty cache holding at most `limit` records.
    pub fn new(limit: usize) -> (r: DecodeCache)
        ensures
            forall|d: Seq<u8>, index: Seq<IndexEntry>| r.ok(d, index),
    {
        DecodeCache { limit, offsets: Vec::new(), kinds: Vec::new(), datas: Vec::new() }
    }

    /// Looks up a previously decoded object by its pack offset.
    fn get(&self, off: u64) -> (r: Option<(ObjectKind, Vec<u8>)>)
        ensures
            r matches Some(p) ==> exists|i: int|
                0 <= i < self.offsets@.len() && self.offsets@[i] == off && self.kinds@[i] == p.0
                    && self.datas@[i]@ == p.1@,
    {
        let n = self.offsets.len();
        let mut k: usize = 0;
        while k < n
            invariant
                k <= n,
                n == self.offsets@.len(),
            decreases n - k,
        {
            if self.offsets[k] == off {
                if k < self.kinds.len() && k < self.datas.len() {
                    let data = copy_bytes(&self.datas[k]);
                    return Some((self.kinds[k], data));
                }
                return None;
            }
            k = k + 1;
        }
        None
    }

    /// Stores a decoded object, evicting the oldest record when the cache
    /// is full. The caller must have decoded it correctly.
    fn put(
        &mut self,
        off: u64,
        kind: ObjectKind,
        data: Vec<u8>,
        Ghost(d): Ghost<Seq<u8>>,
        Ghost(index): Ghost<Seq<IndexEntry>>,
    )
        requires
            old(self).ok(d, index),
            spec_decode_at(d, index, off as nat) == Ok::<(ObjectKind, Seq<u8>), DecodeError>(
                (kind, data@),
            ),
        ensures
            final(self).ok(d, index),
    {
        if self.limit == 0 {
            return ;
        }
        if self.offsets.len() >= self.limit {
            self.offsets.remove(0);
            self.kinds.remove(0);
            self.datas.remove(0);
        }
        self.offsets.push(off);
        self.kinds.push(kind);
        self.datas.push(data);
    }
}

/// Fully decodes the object whose entry starts at `off`, resolving any
/// delta chain through the cache or by decoding bases afresh.
pub fn decode_object(
    d: &Vec<u8>,
    index: &Vec<IndexEntry>,
    off: u64,
    cache: &mut DecodeCache,
) -> (r: Result<(ObjectKind, Vec<u8>), DecodeError>)
    requires
        old(cache).ok(d@, index@),
    ensures
        final(cache).ok(d@, index@),
        match spec_decode_at(d@, index@, off as nat) {
            Ok((k, data)) => r matches Ok(p) && p.0 == k && p.1@ == data,
            Err(e) => r matches Err(e2) && e2 == e,
        },
    decreases off,
{
    match cache.get(off) {
        Some(p) => {
            return Ok(p);
        },
        None => {},
    }
    let (header, _size, data_start, data, _next) = match step_at(d, off) {
        Ok(t) => t,
        Err(e) => {
            return Err(e);
        },
    };
    match header {
        Header::Commit => Ok((ObjectKind::Commit, data)),
        Header::Tree => Ok((ObjectKind::Tree, data)),
        Header::Blob => Ok((ObjectKind::Blob, data)),
        Header::Tag => Ok((ObjectKind::Tag, data)),
        Header::OfsDelta { base_distance } => {
            if base_distance == 0 || base_distance > off {
                return Err(DecodeError::BadDeltaBase);
            }
            let (k, base) = match decode_object(d, index, off - base_distance, cache) {
                Ok(p) => p,
                Err(e) => {
                    return Err(e);
                },
            };
            match apply_delta(&base, &data) {
                Ok(out) => {
                    cache.put(off, k, copy_bytes(&out), Ghost(d@), Ghost(index@));
                    Ok((k, out))
                },
                Err(e) => Err(e),
            }
        },
        Header::RefDelta { base_id } => {
            match lookup_offset(index, &base_id) {
                None => Err(DecodeError::BadDeltaBase),
                Some(boff) => {
                    if boff >= off {
                        return Err(DecodeError::BadDeltaBase);
                    }
                    let (k, base) = match decode_object(d, index, boff, cache) {
                        Ok(p) => p,
                        Err(e) => {
                            return Err(e);
                        },
                    };
                    match apply_delta(&base, &data) {
                        Ok(out) => {
                            cache.put(off, k, copy_bytes(&out), Ghost(d@), Ghost(index@));
                            Ok((k, out))
                        },
                        Err(e) => Err(e),
                    }
                },
            }
        },
    }
}

} // verus!
