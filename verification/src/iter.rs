//! The streaming entry decoder: starting right past the archive's 12-byte
//! header, it repeatedly parses one entry header, hands the following bytes
//! to the decompressor, and yields one decoded entry per step. The stream is
//! finite and forward-only; a caller must bound it by the declared object
//! count, since the trailing checksum is not a valid entry header.

use vstd::prelude::*;

use crate::entry::DecodeError;
use crate::entry::Header;
use crate::entry::Kind;
use crate::entry::SpecHeader;
use crate::entry::parse_archive_header;
use crate::entry::parse_entry_header;
use crate::entry::spec_entry_at;
use crate::entry::spec_parse_archive_header;
use crate::hash::spec_file_checksum_ok;
use crate::zlib::inflate;
use crate::zlib::zlib_consumed;
use crate::zlib::zlib_inflated;
use crate::zlib::zlib_valid;

verus! {

/// What one step of the stream yields at offset `off` of `d`: the parsed
/// header, the declared size, where the compressed payload starts, and where
/// the next entry would start; or the error that stops the step.
pub enum StepSpec {
    Good { header: SpecHeader, size: nat, data_start: int, next: int },
    Fail { err: DecodeError },
}

/// One step of the stream, as a function of the archive bytes and the
/// current offset.
pub open spec fn spec_step(d: Seq<u8>, off: int) -> StepSpec {
    match spec_entry_at(d, off) {
        Err(e) => StepSpec::Fail { err: e },
        Ok((h, size, j)) => {
            let rest = d.skip(j);
            if size > usize::MAX as nat {
                StepSpec::Fail { err: DecodeError::Oversize }
            } else if zlib_valid(rest) && zlib_inflated(rest).len() == size {
                StepSpec::Good {
                    header: h,
                    size,
                    data_start: j,
                    next: j + zlib_consumed(rest),
                }
            } else {
                StepSpec::Fail { err: DecodeError::Zlib }
            }
        },
    }
}

/// One fully decoded entry. The compressed and decompressed bytes are owned
/// copies, so an entry stays valid after the stream moves on.
#[derive(Clone, Debug, PartialEq, Eq)]
pub struct Entry {
    pub header: Header,
    /// The absolute byte offset of this entry within the archive.
    pub pack_offset: u64,
    /// The compressed bytes making up this entry's payload.
    pub compressed: Vec<u8>,
    /// The decompressed payload; its length is the header's declared size.
    pub decompressed: Vec<u8>,
}

/// The streaming decoder itself: the archive bytes and a running offset.
#[derive(Debug)]
pub struct Iter {
    source: Vec<u8>,
    offset: u64,
}

/// Decodes the entry at `off` of `d` without any stream state: parses the
/// header, then decompresses the payload that follows it.
pub(crate) fn step_at(d: &Vec<u8>, off: u64) -> (r: Result<
    (Header, u64, usize, Vec<u8>, usize),
    DecodeError,
>)
    ensures
        match spec_step(d@, off as int) {
            StepSpec::Good { header, size, data_start, next } => r matches Ok(t) && t.0@ == header
                && t.1 as nat == size && t.2 as int == data_start && t.3@ == zlib_inflated(
                d@.skip(data_start),
            ) && t.3@.len() == size && t.4 as int == next && t.4 <= d@.len(),
            StepSpec::Fail { err } => r matches Err(e) && e == err,
        },
{
    let n = d.len();
    if off >= n as u64 {
        return Err(DecodeError::Truncated);
    }
    let pos = off as usize;
    let (header, size, j) = match parse_entry_header(d, pos) {
        Ok(t) => t,
        Err(e) => {
            return Err(e);
        },
    };
    if size > usize::MAX as u64 {
        return Err(DecodeError::Oversize);
    }
    match inflate(d, j, size as usize) {
        None => Err(DecodeError::Zlib),
        Some((out, used)) => Ok((header, size, j, out, j + used)),
    }
}

impl Iter {
    /// The archive bytes this stream walks.
    pub closed spec fn spec_source(self) -> Seq<u8> {
        self.source@
    }

    /// The offset at which the next step will decode.
    pub closed spec fn spec_offset(self) -> int {
        self.offset as int
    }

    /// Constructs a stream over `source` whose first step decodes at
    /// `offset`, normally the size of the archive header; the offset is also
    /// the origin for offset-delta base arithmetic.
    pub fn new_from_first_entry(source: Vec<u8>, offset: u64) -> (r: Iter)
        ensures
            r.spec_source() == source@,
            r.spec_offset() == offset as int,
    {
        Iter { source, offset }
    }

    /// Parses the archive header at the front of `source` and, on success,
    /// returns the format version, the declared object count, and a stream
    /// positioned at the first entry. The caller must drive the stream at
    /// most `count` times.
    pub fn new_from_header(source: Vec<u8>) -> (r: Result<(Kind, u32, Iter), DecodeError>)
        ensures
            match spec_parse_archive_header(source@) {
                Ok((kind, count)) => r matches Ok(t) && t.0 == kind && t.1 == count
                    && t.2.spec_source() == source@ && t.2.spec_offset() == 12,
                Err(e) => r matches Err(e2) && e2 == e,
            },
    {
        match parse_archive_header(&source) {
            Ok((kind, count)) => Ok((kind, count, Iter::new_from_first_entry(source, 12))),
            Err(e) => Err(e),
        }
    }

    /// Decodes the next entry: parses its header at the current offset,
    /// decompresses the payload behind it, and advances the offset by
    /// exactly the bytes the header and the compressed stream occupied. On
    /// failure the offset does not move, so the error is terminal for this
    /// step only.
    pub fn next_inner(&mut self) -> (r: Result<Entry, DecodeError>)
        ensures
            final(self).spec_source() == old(self).spec_source(),
            match spec_step(old(self).spec_source(), old(self).spec_offset()) {
                StepSpec::Good { header, size, data_start, next } => {
                    &&& r matches Ok(e)
                    &&& e.header@ == header
                    &&& e.pack_offset as int == old(self).spec_offset()
                    &&& e.decompressed@ == zlib_inflated(old(self).spec_source().skip(data_start))
                    &&& e.decompressed@.len() == size
                    &&& e.compressed@ == old(self).spec_source().subrange(data_start, next)
                    &&& final(self).spec_offset() == next
                },
                StepSpec::Fail { err } => r matches Err(e) && e == err && final(self).spec_offset()
                    == old(self).spec_offset(),
            },
    {
        let start = self.offset;
        match step_at(&self.source, start) {
            Err(e) => Err(e),
            Ok((header, _size, data_start, decompressed, next)) => {
                let n = self.source.len();
                let mut compressed: Vec<u8> = Vec::new();
                let mut k: usize = data_start;
                while k < next
                    invariant
                        data_start <= k <= next,
                        next <= n,
                        n == self.source@.len(),
                        self.source@ == old(self).spec_source(),
                        compressed@ == self.source@.subrange(data_start as int, k as int),
                    decreases next - k,
                {
                    compressed.push(self.source[k]);
                    k = k + 1;
                    proof {
                        assert(compressed@ =~= self.source@.subrange(data_start as int, k as int));
                    }
                }
                self.offset = next as u64;
                Ok(Entry { header, pack_offset: start, compressed, decompressed })
            },
        }
    }

    /// Drives the stream exactly `n` steps, collecting the entries. Exactly
    /// the declared object count of a well-formed archive succeeds, the
    /// offset then rests where the trailing checksum begins, and every
    /// returned entry is the one its step decodes.
    pub fn read_all(&mut self, n: u32) -> (r: Result<Vec<Entry>, DecodeError>)
        ensures
            final(self).spec_source() == old(self).spec_source(),
            match spec_drive(old(self).spec_source(), old(self).spec_offset(), n as nat) {
                Ok(end) => r matches Ok(v) && v@.len() == n as nat && final(self).spec_offset()
                    == end && spec_entries_end(
                    old(self).spec_source(),
                    old(self).spec_offset(),
                    v@,
                ) == Some(end),
                Err(e) => r matches Err(e2) && e2 == e,
            },
    {
        let mut out: Vec<Entry> = Vec::new();
        let mut i: u32 = 0;
        proof {
            assert(spec_entries_end(self.spec_source(), self.spec_offset(), out@) == Some(
                self.spec_offset(),
            ));
        }
        while i < n
            invariant
                i <= n,
                out@.len() == i as nat,
                self.spec_source() == old(self).spec_source(),
                spec_drive(old(self).spec_source(), old(self).spec_offset(), n as nat)
                    == spec_drive(self.spec_source(), self.spec_offset(), (n - i) as nat),
                spec_entries_end(old(self).spec_source(), old(self).spec_offset(), out@) == Some(
                    self.spec_offset(),
                ),
            decreases n - i,
        {
            let ghost cur: int = self.spec_offset();
            let ghost out_before: Seq<Entry> = out@;
            match self.next_inner() {
                Ok(e) => {
                    proof {
                        lemma_entries_end_push(
                            old(self).spec_source(),
                            old(self).spec_offset(),
                            out_before,
                            e,
                            cur,
                        );
                    }
                    out.push(e);
                    i = i + 1;
                },
                Err(e) => {
                    return Err(e);
                },
            }
        }
        Ok(out)
    }
}

/// Whether `es` is exactly the run of entries that successive steps from
/// offset `off` decode, and if so, the offset reached after them.
pub open spec fn spec_entries_end(d: Seq<u8>, off: int, es: Seq<Entry>) -> Option<int>
    decreases es.len(),
{
    if es.len() == 0 {
        Some(off)
    } else {
        match spec_step(d, off) {
            StepSpec::Good { header, size, data_start, next } => {
                if es[0].header@ == header && es[0].pack_offset as int == off
                    && es[0].decompressed@ == zlib_inflated(d.skip(data_start))
                    && es[0].compressed@ == d.subrange(data_start, next) {
                    spec_entries_end(d, next, es.skip(1))
                } else {
                    None
                }
            },
            StepSpec::Fail { .. } => None,
        }
    }
}

/// Law: a run of matching entries extends by one more matching step.
proof fn lemma_entries_end_push(d: Seq<u8>, off: int, es: Seq<Entry>, e: Entry, cur: int)
    requires
        spec_entries_end(d, off, es) == Some(cur),
        spec_step(d, cur) matches StepSpec::Good { header, size, data_start, next } && e.header@
            == header && e.pack_offset as int == cur && e.decompressed@ == zlib_inflated(
            d.skip(data_start),
        ) && e.compressed@ == d.subrange(data_start, next),
    ensures
        spec_step(d, cur) matches StepSpec::Good { next, .. } ==> spec_entries_end(
            d,
            off,
            es.push(e),
        ) == Some(next),
    decreases es.len(),
{
    if es.len() == 0 {
        assert(es.push(e)[0] == e);
        match spec_step(d, cur) {
            StepSpec::Good { next, .. } => {
                assert(es.push(e).skip(1) =~= Seq::<Entry>::empty());
                assert(spec_entries_end(d, next, es.push(e).skip(1)) == Some(next));
                assert(spec_entries_end(d, off, es.push(e)) == Some(next));
            },
            StepSpec::Fail { .. } => {},
        }
    } else {
        assert(es.push(e)[0] == es[0]);
        match spec_step(d, off) {
            StepSpec::Good { next: off2, .. } => {
                lemma_entries_end_push(d, off2, es.skip(1), e, cur);
                assert(es.push(e).skip(1) =~= es.skip(1).push(e));
                match spec_step(d, cur) {
                    StepSpec::Good { next, .. } => {
                        assert(spec_entries_end(d, off2, es.skip(1).push(e)) == Some(next));
                        assert(spec_entries_end(d, off, es.push(e)) == Some(next));
                    },
                    StepSpec::Fail { .. } => {},
                }
            },
            StepSpec::Fail { .. } => {},
        }
    }
}

/// Driving the stream `n` steps from offset `off`: the offset reached after
/// the last successful step, or the error of the first failing one.
pub open spec fn spec_drive(d: Seq<u8>, off: int, n: nat) -> Result<int, DecodeError>
    decreases n,
{
    if n == 0 {
        Ok(off)
    } else {
        match spec_step(d, off) {
            StepSpec::Good { next, .. } => spec_drive(d, next, (n - 1) as nat),
            StepSpec::Fail { err } => Err(err),
        }
    }
}

/// A well-formed archive holding `count` entries: its header parses with
/// that count, its entries fill the bytes between the header and the
/// trailing twenty-byte checksum exactly, and that checksum matches.
pub open spec fn spec_valid_archive(d: Seq<u8>, count: nat) -> bool {
    &&& spec_parse_archive_header(d) matches Ok(p) && p.1 as nat == count
    &&& d.len() >= 32
    &&& spec_drive(d, 12, count) == Ok::<int, DecodeError>(d.len() - 20)
    &&& spec_file_checksum_ok(d)
}

/// Law: when driving a stream `n` steps succeeds, so does driving it any
/// smaller number of steps — a failure never hides among the entries of a
/// successful run.
pub proof fn lemma_drive_prefix(d: Seq<u8>, off: int, m: nat, n: nat)
    requires
        m <= n,
        spec_drive(d, off, n) is Ok,
    ensures
        spec_drive(d, off, m) is Ok,
    decreases m,
{
    if m > 0 {
        match spec_step(d, off) {
            StepSpec::Good { next, .. } => {
                lemma_drive_prefix(d, next, (m - 1) as nat, (n - 1) as nat);
            },
            StepSpec::Fail { .. } => {
                assert(false);
            },
        }
    }
}

/// Law: a stream opened right past the header of a well-formed archive and
/// driven exactly the declared count of times succeeds that many times and
/// no more, every shorter run succeeding along the way; the offset after
/// the last entry is the byte position of the trailing checksum. Together
/// with the contract of `read_all`, this pins the behavior of a whole
/// bounded traversal of the stream.
pub proof fn lemma_stream_covers_archive(d: Seq<u8>, count: nat)
    requires
        spec_valid_archive(d, count),
    ensures
        spec_drive(d, 12, count) == Ok::<int, DecodeError>(d.len() - 20),
        forall|m: nat| m <= count ==> (#[trigger] spec_drive(d, 12, m)) is Ok,
{
    assert forall|m: nat| m <= count implies (#[trigger] spec_drive(d, 12, m)) is Ok by {
        lemma_drive_prefix(d, 12, m, count);
    }
}

} // verus!
