//! The index-guided traversal and explode pipeline: every indexed object is
//! decoded, written through an object-writer, and its recomputed content
//! identity is compared against the identity the index expects. Only a run
//! in which every entry succeeds may retire the source archive.

use vstd::prelude::*;

use crate::decode::DecodeCache;
use crate::decode::IndexEntry;
use crate::decode::decode_object;
use crate::decode::spec_decode_at;
use crate::entry::DecodeError;
use crate::hash::ObjectKind;
use crate::hash::bytes_eq;
use crate::hash::compute_object_id;
use crate::hash::copy_bytes;
use crate::hash::spec_file_checksum_ok;
use crate::hash::spec_object_id;
use crate::hash::verify_file_checksum;
use crate::safety::SafetyCheck;
use crate::tree::normalize_tree;
use crate::tree::spec_norm_tree;

verus! {

/// Whether a differing written identity for a tree is attributable to the
/// known benign normalization: the writer rewrote the tree's non-canonical
/// file modes to the canonical one, so the identity it returns is exactly
/// the identity of that rewriting, and the rewriting changed something.
pub open spec fn spec_tree_note_applies(decoded: Seq<u8>, written: Seq<u8>) -> bool {
    match spec_norm_tree(decoded) {
        Some(nd) => nd != decoded && spec_object_id(ObjectKind::Tree, nd) == written,
        None => false,
    }
}

fn tree_note_applies(decoded: &Vec<u8>, written: &Vec<u8>) -> (r: bool)
    ensures
        r == spec_tree_note_applies(decoded@, written@),
{
    match normalize_tree(decoded) {
        Some(nd) => {
            if bytes_eq(&nd, decoded) {
                false
            } else {
                let nid = compute_object_id(ObjectKind::Tree, &nd);
                bytes_eq(&nid, written)
            }
        },
        None => false,
    }
}

/// What the pipeline does with the identity a writer returned for one
/// object, independently of the safety level.
#[derive(Clone, Copy, Debug, PartialEq, Eq, Structural)]
pub enum WrittenCheck {
    /// The written identity equals the expected one.
    Accept,
    /// A tree came back under a different identity, attributable to the
    /// benign mode normalization: reported as informational, not an error.
    AcceptWithNote,
    /// Any other differing identity: fatal.
    Reject,
}

/// The level-independent policy for a written identity: equal is success; a
/// tree whose difference is attributable to the benign mode normalization
/// is success with a note; anything else is a fatal mismatch.
pub open spec fn spec_check_written(
    kind: ObjectKind,
    decoded: Seq<u8>,
    expected: Seq<u8>,
    written: Seq<u8>,
) -> WrittenCheck {
    if written == expected {
        WrittenCheck::Accept
    } else if kind == ObjectKind::Tree && spec_tree_note_applies(decoded, written) {
        WrittenCheck::AcceptWithNote
    } else {
        WrittenCheck::Reject
    }
}

/// Decides what to do with the identity a writer returned for one decoded
/// object, checked against the identity the index expects.
pub fn check_written_identity(
    kind: ObjectKind,
    decoded: &Vec<u8>,
    expected: &Vec<u8>,
    written: &Vec<u8>,
) -> (r: WrittenCheck)
    ensures
        r == spec_check_written(kind, decoded@, expected@, written@),
{
    if bytes_eq(written, expected) {
        WrittenCheck::Accept
    } else if matches!(kind, ObjectKind::Tree) && tree_note_applies(decoded, written) {
        WrittenCheck::AcceptWithNote
    } else {
        WrittenCheck::Reject
    }
}

/// The access pattern of a traversal: entries are visited in index order
/// and decoded at their recorded pack offsets.
#[derive(Clone, Copy, Debug, PartialEq, Eq, Structural)]
pub enum Algorithm {
    Lookup,
}

/// The options a traversal runs under.
#[derive(Clone, Copy, Debug)]
pub struct TraverseContext {
    pub algorithm: Algorithm,
    /// An upper bound on worker parallelism. The verdict never depends on
    /// it: entries may be processed in any order, or concurrently, without
    /// changing which objects succeed or what they decode to.
    pub thread_limit: Option<usize>,
    pub check: SafetyCheck,
}

/// How one entry fares when decoded and checked against the index.
pub enum ObjectCase {
    /// Decoded, and the recomputed identity equals the expected one.
    Match,
    /// Decoded as a tree whose recomputed identity differs, attributably to
    /// the known benign normalization of non-canonical file modes.
    TreeMismatch { expected: Seq<u8>, actual: Seq<u8> },
    /// Decoded with a differing identity not attributable to it; fatal.
    Mismatch { kind: ObjectKind, expected: Seq<u8>, actual: Seq<u8> },
    /// The entry could not be decoded.
    Undecodable { err: DecodeError },
}

/// How the entry `e` fares under archive `d` and index `index`, with the
/// written identity recomputed from the decoded bytes, as the discarding
/// sink recomputes it.
pub open spec fn spec_object_case(d: Seq<u8>, index: Seq<IndexEntry>, e: IndexEntry) -> ObjectCase {
    match spec_decode_at(d, index, e.pack_offset as nat) {
        Err(err) => ObjectCase::Undecodable { err },
        Ok((k, data)) => {
            let actual = spec_object_id(k, data);
            match spec_check_written(k, data, e.oid@, actual) {
                WrittenCheck::Accept => ObjectCase::Match,
                WrittenCheck::AcceptWithNote => ObjectCase::TreeMismatch {
                    expected: e.oid@,
                    actual,
                },
                WrittenCheck::Reject => ObjectCase::Mismatch {
                    kind: k,
                    expected: e.oid@,
                    actual,
                },
            }
        },
    }
}

/// The per-entry outcomes of a whole index, in index order.
pub open spec fn spec_cases(d: Seq<u8>, index: Seq<IndexEntry>) -> Seq<ObjectCase> {
    Seq::new(index.len(), |i: int| spec_object_case(d, index, index[i]))
}

/// The verdict of a finished pipeline run.
pub enum SpecVerdict {
    /// Every entry was written or, under the most relaxed level, skipped;
    /// notes record tree normalizations.
    Completed { written: nat, skipped: nat, notes: Seq<(Seq<u8>, Seq<u8>)> },
    /// The first fatal failure.
    Aborted { failure: SpecFailure },
}

/// The fatal failures a run can end in.
pub enum SpecFailure {
    /// The archive's trailing checksum did not match.
    Checksum,
    /// An entry could not be decoded under a level that aborts on that.
    Decode { err: DecodeError },
    /// A recomputed identity differed from the expected one.
    Mismatch { kind: ObjectKind, expected: Seq<u8>, actual: Seq<u8> },
}

/// The pipeline folded over per-entry outcomes. Under the strict levels
/// every object's recomputed identity is verified against the index before
/// anything is written, and that check has no tree exception; the sink's
/// written identity is exactly the recomputed one, so under those levels an
/// attributable tree difference is already fatal there. Otherwise such a
/// tree counts as written with a note. An undecodable entry is fatal unless
/// the level tolerates it, in which case it is skipped.
pub open spec fn spec_pipeline(
    cases: Seq<ObjectCase>,
    strict_objects: bool,
    tolerate: bool,
    written: nat,
    skipped: nat,
    notes: Seq<(Seq<u8>, Seq<u8>)>,
) -> SpecVerdict
    decreases cases.len(),
{
    if cases.len() == 0 {
        SpecVerdict::Completed { written, skipped, notes }
    } else {
        match cases[0] {
            ObjectCase::Match => spec_pipeline(
                cases.skip(1),
                strict_objects,
                tolerate,
                written + 1,
                skipped,
                notes,
            ),
            ObjectCase::TreeMismatch { expected, actual } => {
                if strict_objects {
                    SpecVerdict::Aborted {
                        failure: SpecFailure::Mismatch {
                            kind: ObjectKind::Tree,
                            expected,
                            actual,
                        },
                    }
                } else {
                    spec_pipeline(
                        cases.skip(1),
                        strict_objects,
                        tolerate,
                        written + 1,
                        skipped,
                        notes.push((expected, actual)),
                    )
                }
            },
            ObjectCase::Mismatch { kind, expected, actual } => SpecVerdict::Aborted {
                failure: SpecFailure::Mismatch { kind, expected, actual },
            },
            ObjectCase::Undecodable { err } => {
                if tolerate {
                    spec_pipeline(
                        cases.skip(1),
                        strict_objects,
                        tolerate,
                        written,
                        skipped + 1,
                        notes,
                    )
                } else {
                    SpecVerdict::Aborted { failure: SpecFailure::Decode { err } }
                }
            },
        }
    }
}

/// The whole verify-only explode over in-memory data, as a function of the
/// archive bytes, the index and the safety level — and of nothing else.
pub open spec fn spec_explode_sink(
    d: Seq<u8>,
    index: Seq<IndexEntry>,
    check: SafetyCheck,
) -> SpecVerdict {
    if check.spec_verifies_file_checksum() && !spec_file_checksum_ok(d) {
        SpecVerdict::Aborted { failure: SpecFailure::Checksum }
    } else {
        spec_pipeline(
            spec_cases(d, index),
            check.spec_verifies_object_checksum(),
            check.spec_tolerates_decode_errors(),
            0,
            0,
            Seq::empty(),
        )
    }
}

/// One recorded tree normalization: the identity the index expected and
/// the one recomputed from the written bytes.
#[derive(Clone, Debug)]
pub struct TreeNote {
    pub expected: Vec<u8>,
    pub actual: Vec<u8>,
}

impl View for TreeNote {
    type V = (Seq<u8>, Seq<u8>);

    open spec fn view(&self) -> (Seq<u8>, Seq<u8>) {
        (self.expected@, self.actual@)
    }
}

/// Counters and notes of a completed run.
#[derive(Debug)]
pub struct ExplodeStats {
    pub written: u64,
    pub skipped: u64,
    pub notes: Vec<TreeNote>,
}

/// A fatal explode failure, with enough context to diagnose it.
#[derive(Debug)]
pub enum ExplodeError {
    /// The archive's trailing checksum did not match.
    Checksum,
    /// An entry could not be decoded.
    Decode { err: DecodeError },
    /// An object was not re-encoded without change: the recomputed
    /// identity differs from the one the index expects.
    ObjectEncodeMismatch { kind: ObjectKind, expected: Vec<u8>, actual: Vec<u8> },
    /// The writer itself failed for this object; fatal under every level.
    Write { kind: ObjectKind, id: Vec<u8> },
}

/// Whether the exec failure value denotes the spec-level failure.
pub open spec fn spec_failure_matches(e: ExplodeError, f: SpecFailure) -> bool {
    match f {
        SpecFailure::Checksum => e is Checksum,
        SpecFailure::Decode { err } => e matches ExplodeError::Decode { err: e2 } && e2 == err,
        SpecFailure::Mismatch { kind, expected, actual } => e matches ExplodeError::ObjectEncodeMismatch {
            kind: k2,
            expected: x2,
            actual: a2,
        } && k2 == kind && x2@ == expected && a2@ == actual,
    }
}

/// Runs the verify-only explode: decodes every indexed object in index
/// order, recomputes its identity as the discarding sink writer would, and
/// folds the outcomes under the given safety level. The verdict is pinned
/// to `spec_explode_sink`, which does not depend on the thread limit.
pub fn explode_with_sink(d: &Vec<u8>, index: &Vec<IndexEntry>, ctx: TraverseContext) -> (r: Result<
    ExplodeStats,
    ExplodeError,
>)
    ensures
        match spec_explode_sink(d@, index@, ctx.check) {
            SpecVerdict::Completed { written, skipped, notes } => r matches Ok(s) && s.written
                as nat == written && s.skipped as nat == skipped && s.notes@.map_values(
                |nn: TreeNote| nn@,
            ) == notes,
            SpecVerdict::Aborted { failure } => r matches Err(e) && spec_failure_matches(
                e,
                failure,
            ),
        },
{
    if ctx.check.verifies_file_checksum() {
        if !verify_file_checksum(d) {
            return Err(ExplodeError::Checksum);
        }
    }
    let strict = ctx.check.verifies_object_checksum();
    let tolerate = ctx.check.tolerates_decode_errors();
    let mut cache = DecodeCache::new(64);
    let mut written: u64 = 0;
    let mut skipped: u64 = 0;
    let mut notes: Vec<TreeNote> = Vec::new();
    let n = index.len();
    let mut i: usize = 0;
    proof {
        assert(spec_cases(d@, index@).skip(0) =~= spec_cases(d@, index@));
        assert(notes@.map_values(|nn: TreeNote| nn@) =~= Seq::<(Seq<u8>, Seq<u8>)>::empty());
    }
    while i < n
        invariant
            i <= n,
            n == index@.len(),
            cache.ok(d@, index@),
            written as nat + skipped as nat <= i as nat,
            strict == ctx.check.spec_verifies_object_checksum(),
            tolerate == ctx.check.spec_tolerates_decode_errors(),
            spec_explode_sink(d@, index@, ctx.check) == spec_pipeline(
                spec_cases(d@, index@).skip(i as int),
                strict,
                tolerate,
                written as nat,
                skipped as nat,
                notes@.map_values(|nn: TreeNote| nn@),
            ),
        decreases n - i,
    {
        let ghost cases = spec_cases(d@, index@);
        proof {
            assert(cases.skip(i as int)[0] == cases[i as int]);
            assert(cases.skip(i as int).skip(1) =~= cases.skip(i as int + 1));
        }
        let e = &index[i];
        let ghost notes_before = notes@.map_values(|nn: TreeNote| nn@);
        match decode_object(d, index, e.pack_offset, &mut cache) {
            Err(err) => {
                if tolerate {
                    skipped = skipped + 1;
                } else {
                    return Err(ExplodeError::Decode { err });
                }
            },
            Ok((k, data)) => {
                let actual = compute_object_id(k, &data);
                match check_written_identity(k, &data, &e.oid, &actual) {
                    WrittenCheck::Accept => {
                        written = written + 1;
                    },
                    WrittenCheck::AcceptWithNote => {
                        if strict {
                            return Err(
                                ExplodeError::ObjectEncodeMismatch {
                                    kind: k,
                                    expected: copy_bytes(&e.oid),
                                    actual,
                                },
                            );
                        }
                        notes.push(TreeNote { expected: copy_bytes(&e.oid), actual });
                        written = written + 1;
                        proof {
                            assert(notes@.map_values(|nn: TreeNote| nn@) =~= notes_before.push(
                                (index@[i as int].oid@, spec_object_id(k, data@)),
                            ));
                        }
                    },
                    WrittenCheck::Reject => {
                        return Err(
                            ExplodeError::ObjectEncodeMismatch {
                                kind: k,
                                expected: copy_bytes(&e.oid),
                                actual,
                            },
                        );
                    },
                }
            },
        }
        i = i + 1;
    }
    Ok(ExplodeStats { written, skipped, notes })
}

/// The failure of an object writer. What failed is the writer's own
/// affair; the pipeline wraps it with the object's kind and expected
/// identity.
#[derive(Clone, Copy, Debug, PartialEq, Eq, Structural)]
pub struct WriteError {
}

/// The object-writer capability: persists one fully buffered object and
/// returns the content identity it computed from the bytes it actually
/// persisted. Implementations decide where the bytes go; a traversal
/// treats any failure as fatal.
pub trait ObjectWrite {
    fn write_buf(&self, kind: ObjectKind, data: &Vec<u8>) -> Result<Vec<u8>, WriteError>;
}

/// The discarding sink: persists nothing and returns the identity
/// recomputed from exactly the bytes it was handed.
pub struct Sink;

impl ObjectWrite for Sink {
    fn write_buf(&self, kind: ObjectKind, data: &Vec<u8>) -> (r: Result<Vec<u8>, WriteError>)
        ensures
            r matches Ok(id) && id@ == spec_object_id(kind, data@),
    {
        Ok(compute_object_id(kind, data))
    }
}

/// Count of the first `i` index entries whose decode fails.
pub open spec fn spec_fail_count(d: Seq<u8>, index: Seq<IndexEntry>, i: int) -> nat
    decreases i,
{
    if i <= 0 {
        0
    } else {
        spec_fail_count(d, index, i - 1) + (if spec_decode_at(
            d,
            index,
            index[i - 1].pack_offset as nat,
        ) is Err {
            1nat
        } else {
            0
        })
    }
}

/// Law: when every indexed entry is undecodable, the failure count is the
/// whole prefix length.
proof fn lemma_fail_count_all(d: Seq<u8>, index: Seq<IndexEntry>, i: int)
    requires
        0 <= i <= index.len(),
        forall|j: int|
            0 <= j < index.len() ==> spec_decode_at(
                d,
                index,
                (#[trigger] index[j]).pack_offset as nat,
            ) is Err,
    ensures
        spec_fail_count(d, index, i) == i,
    decreases i,
{
    if i > 0 {
        lemma_fail_count_all(d, index, i - 1);
    }
}

/// Runs the traversal for an arbitrary writer. Every index entry is
/// decoded; under the strict levels the recomputed identity of the decoded
/// bytes is first verified against the index, with no tree exception; the
/// object is then handed to the writer, and the identity the writer
/// returns is judged by `check_written_identity`, whose policy does not
/// depend on the level. What the writer returns is its own affair, so
/// beyond what is handed to it the contract promises what holds whatever
/// came back: a completed run processed every entry and skipped exactly
/// the undecodable ones, which only the most relaxed level permits;
/// success is owed where no writer is ever consulted (an empty index, or
/// an all-undecodable archive under the tolerant level); the checksum
/// failure comes if and only if that check is on and fails; and every
/// reported failure names an indexed object.
#[verifier::rlimit(100)]
#[verifier::spinoff_prover]
pub fn explode_entries<W: ObjectWrite>(
    w: &W,
    d: &Vec<u8>,
    index: &Vec<IndexEntry>,
    ctx: TraverseContext,
) -> (r: Result<ExplodeStats, ExplodeError>)
    ensures
        r matches Ok(s) ==> s.written as nat + s.skipped as nat == index@.len() && s.skipped
            as nat == spec_fail_count(d@, index@, index@.len() as int) && (s.skipped > 0
            ==> ctx.check.spec_tolerates_decode_errors()) && (
        ctx.check.spec_verifies_file_checksum() ==> spec_file_checksum_ok(d@)),
        (r matches Err(e) && e is Checksum) <==> (ctx.check.spec_verifies_file_checksum()
            && !spec_file_checksum_ok(d@)),
        !(ctx.check.spec_verifies_file_checksum() && !spec_file_checksum_ok(d@)) && index@.len()
            == 0 ==> (r matches Ok(s) && s.written == 0 && s.skipped == 0),
        !(ctx.check.spec_verifies_file_checksum() && !spec_file_checksum_ok(d@))
            && ctx.check.spec_tolerates_decode_errors() && (forall|j: int|
            0 <= j < index@.len() ==> spec_decode_at(
                d@,
                index@,
                (#[trigger] index@[j]).pack_offset as nat,
            ) is Err) ==> (r matches Ok(s) && s.written == 0 && s.skipped as nat
            == index@.len()),
        r matches Err(ExplodeError::Decode { err }) ==> !ctx.check.spec_tolerates_decode_errors()
            && exists|j: int|
            0 <= j < index@.len() && spec_decode_at(
                d@,
                index@,
                (#[trigger] index@[j]).pack_offset as nat,
            ) == Err::<(ObjectKind, Seq<u8>), DecodeError>(err),
        (!(ctx.check.spec_verifies_file_checksum() && !spec_file_checksum_ok(d@))
            && !ctx.check.spec_tolerates_decode_errors() && index@.len() > 0) ==> (match
        spec_decode_at(d@, index@, index@[0].pack_offset as nat) {
            Err(err0) => (r matches Err(e) && e == (ExplodeError::Decode { err: err0 })),
            Ok(_) => true,
        }),
        r matches Err(ExplodeError::ObjectEncodeMismatch { expected, .. }) ==> exists|j: int|
            0 <= j < index@.len() && (#[trigger] index@[j]).oid@ == expected@,
        r matches Err(ExplodeError::Write { kind, id }) ==> exists|j: int|
            0 <= j < index@.len() && (#[trigger] index@[j]).oid@ == id@ && (spec_decode_at(
                d@,
                index@,
                index@[j].pack_offset as nat,
            ) matches Ok(p) && p.0 == kind),
{
    if ctx.check.verifies_file_checksum() {
        if !verify_file_checksum(d) {
            return Err(ExplodeError::Checksum);
        }
    }
    let strict = ctx.check.verifies_object_checksum();
    let tolerate = ctx.check.tolerates_decode_errors();
    let mut cache = DecodeCache::new(64);
    let mut written: u64 = 0;
    let mut skipped: u64 = 0;
    let mut notes: Vec<TreeNote> = Vec::new();
    let n = index.len();
    let mut i: usize = 0;
    while i < n
        invariant
            i <= n,
            n == index@.len(),
            cache.ok(d@, index@),
            written as nat + skipped as nat == i as nat,
            skipped as nat == spec_fail_count(d@, index@, i as int),
            strict == ctx.check.spec_verifies_object_checksum(),
            tolerate == ctx.check.spec_tolerates_decode_errors(),
            skipped > 0 ==> tolerate,
            !(ctx.check.spec_verifies_file_checksum() && !spec_file_checksum_ok(d@)),
            !tolerate && i > 0 ==> spec_decode_at(d@, index@, index@[0].pack_offset as nat) is Ok,
        decreases n - i,
    {
        let e = &index[i];
        match decode_object(d, index, e.pack_offset, &mut cache) {
            Err(err) => {
                if tolerate {
                    skipped = skipped + 1;
                } else {
                    proof {
                        assert(spec_decode_at(d@, index@, index@[i as int].pack_offset as nat)
                            == Err::<(ObjectKind, Seq<u8>), DecodeError>(err));
                    }
                    return Err(ExplodeError::Decode { err });
                }
            },
            Ok((k, data)) => {
                proof {
                    assert(index@[i as int].oid@ == e.oid@);
                    assert((spec_decode_at(d@, index@, index@[i as int].pack_offset as nat)
                        matches Ok(p) && p.0 == k));
                }
                if strict {
                    let recomputed = compute_object_id(k, &data);
                    if !bytes_eq(&recomputed, &e.oid) {
                        return Err(
                            ExplodeError::ObjectEncodeMismatch {
                                kind: k,
                                expected: copy_bytes(&e.oid),
                                actual: recomputed,
                            },
                        );
                    }
                }
                let written_id = match w.write_buf(k, &data) {
                    Ok(id) => id,
                    Err(_) => {
                        proof {
                            assert(exists|j: int|
                                0 <= j < index@.len() && (#[trigger] index@[j]).oid@ == e.oid@ && (
                                spec_decode_at(d@, index@, index@[j].pack_offset as nat) matches Ok(
                                    p,
                                ) && p.0 == k)) by {
                                assert(index@[i as int].oid@ == e.oid@ && (spec_decode_at(
                                    d@,
                                    index@,
                                    index@[i as int].pack_offset as nat,
                                ) matches Ok(p) && p.0 == k));
                            }
                        }
                        return Err(ExplodeError::Write { kind: k, id: copy_bytes(&e.oid) });
                    },
                };
                match check_written_identity(k, &data, &e.oid, &written_id) {
                    WrittenCheck::Accept => {
                        written = written + 1;
                    },
                    WrittenCheck::AcceptWithNote => {
                        notes.push(TreeNote { expected: copy_bytes(&e.oid), actual: written_id });
                        written = written + 1;
                    },
                    WrittenCheck::Reject => {
                        return Err(
                            ExplodeError::ObjectEncodeMismatch {
                                kind: k,
                                expected: copy_bytes(&e.oid),
                                actual: written_id,
                            },
                        );
                    },
                }
            },
        }
        i = i + 1;
    }
    proof {
        if forall|j: int|
            0 <= j < index@.len() ==> spec_decode_at(
                d@,
                index@,
                (#[trigger] index@[j]).pack_offset as nat,
            ) is Err {
            lemma_fail_count_all(d@, index@, n as int);
        }
    }
    Ok(ExplodeStats { written, skipped, notes })
}

/// After a successful explode the source bundle is retired, but only when
/// a real destination was filled: a verify-only run leaves the archive
/// untouched. The caller removes the index file first, and the data file
/// only if that removal succeeded.
pub fn should_retire_bundle(traversal_succeeded: bool, has_destination: bool) -> (r: bool)
    ensures
        r == (traversal_succeeded && has_destination),
{
    traversal_succeeded && has_destination
}

/// Law: a pipeline over outcomes that are all matches completes, writing
/// every object and skipping none, under every safety level.
proof fn lemma_pipeline_all_match(
    cases: Seq<ObjectCase>,
    strict_objects: bool,
    tolerate: bool,
    written: nat,
    skipped: nat,
    notes: Seq<(Seq<u8>, Seq<u8>)>,
)
    requires
        forall|i: int| 0 <= i < cases.len() ==> cases[i] == ObjectCase::Match,
    ensures
        spec_pipeline(cases, strict_objects, tolerate, written, skipped, notes)
            == (SpecVerdict::Completed { written: (written + cases.len()) as nat, skipped, notes }),
    decreases cases.len(),
{
    if cases.len() > 0 {
        assert(cases[0] == ObjectCase::Match);
        assert(forall|i: int|
            0 <= i < cases.skip(1).len() ==> #[trigger] cases.skip(1)[i] == cases[i + 1]);
        lemma_pipeline_all_match(cases.skip(1), strict_objects, tolerate, written + 1, skipped, notes);
    }
}

/// Law (round trip): for an archive whose every indexed entry decodes and
/// whose recomputed identities all equal the ones the index expects — as
/// holds after exploding a delta-free archive whose index was built from
/// its objects — the verify-only pipeline completes, writing every object
/// and skipping none.
pub proof fn lemma_round_trip(d: Seq<u8>, index: Seq<IndexEntry>, check: SafetyCheck)
    requires
        forall|i: int|
            0 <= i < index.len() ==> spec_object_case(d, index, #[trigger] index[i])
                == ObjectCase::Match,
        check.spec_verifies_file_checksum() ==> spec_file_checksum_ok(d),
    ensures
        spec_explode_sink(d, index, check) == (SpecVerdict::Completed {
            written: index.len(),
            skipped: 0,
            notes: Seq::empty(),
        }),
{
    let cases = spec_cases(d, index);
    assert(forall|i: int| 0 <= i < cases.len() ==> #[trigger] cases[i] == ObjectCase::Match);
    lemma_pipeline_all_match(
        cases,
        check.spec_verifies_object_checksum(),
        check.spec_tolerates_decode_errors(),
        0,
        0,
        Seq::empty(),
    );
}

/// Law (idempotence): the verify-only pipeline is a pure function of the
/// archive bytes, the index and the safety level, so two runs over the
/// same inputs yield the same verdict — and the pipeline only reads the
/// archive, so no run mutates it.
pub proof fn lemma_sink_deterministic(
    d: Seq<u8>,
    index: Seq<IndexEntry>,
    check: SafetyCheck,
    v1: SpecVerdict,
    v2: SpecVerdict,
)
    requires
        v1 == spec_explode_sink(d, index, check),
        v2 == spec_explode_sink(d, index, check),
    ensures
        v1 == v2,
{
}

/// Law (parallelism-independence): the verdict does not depend on the
/// thread limit. The verdict spec takes no thread limit at all, and the
/// contract of `explode_with_sink` pins its result to that spec for every
/// context, so two contexts that agree on the safety level — and may
/// differ arbitrarily in their thread limits — give equal verdicts.
pub proof fn lemma_thread_limit_immaterial(
    d: Seq<u8>,
    index: Seq<IndexEntry>,
    c1: TraverseContext,
    c2: TraverseContext,
)
    requires
        c1.check == c2.check,
    ensures
        spec_explode_sink(d, index, c1.check) == spec_explode_sink(d, index, c2.check),
{
}

/// Law: a pipeline over outcomes with exactly one undecodable entry and
/// matches everywhere else aborts with that entry's decode error when it
/// does not tolerate decode errors, and completes with exactly one skip
/// when it does.
proof fn lemma_pipeline_one_undecodable(
    cases: Seq<ObjectCase>,
    bad: int,
    err: DecodeError,
    strict_objects: bool,
    written: nat,
    skipped: nat,
    notes: Seq<(Seq<u8>, Seq<u8>)>,
)
    requires
        0 <= bad < cases.len(),
        cases[bad] == (ObjectCase::Undecodable { err }),
        forall|i: int| 0 <= i < cases.len() && i != bad ==> cases[i] == ObjectCase::Match,
    ensures
        spec_pipeline(cases, strict_objects, false, written, skipped, notes)
            == (SpecVerdict::Aborted { failure: SpecFailure::Decode { err } }),
        spec_pipeline(cases, strict_objects, true, written, skipped, notes)
            == (SpecVerdict::Completed {
            written: (written + cases.len() - 1) as nat,
            skipped: skipped + 1,
            notes,
        }),
    decreases cases.len(),
{
    assert(forall|i: int|
        0 <= i < cases.skip(1).len() ==> #[trigger] cases.skip(1)[i] == cases[i + 1]);
    if bad == 0 {
        lemma_pipeline_all_match(cases.skip(1), strict_objects, true, written, skipped + 1, notes);
    } else {
        assert(cases[0] == ObjectCase::Match);
        lemma_pipeline_one_undecodable(
            cases.skip(1),
            bad - 1,
            err,
            strict_objects,
            written + 1,
            skipped,
            notes,
        );
    }
}

/// Law (safety-policy monotonicity): for an archive with exactly one
/// corrupted, undecodable entry and a matching checksum, the strictest
/// level aborts the whole traversal with that entry's decode error, while
/// the most relaxed level completes, skipping exactly that one object and
/// writing all others.
pub proof fn lemma_safety_monotonic(
    d: Seq<u8>,
    index: Seq<IndexEntry>,
    bad: int,
    err: DecodeError,
)
    requires
        0 <= bad < index.len(),
        spec_object_case(d, index, index[bad]) == (ObjectCase::Undecodable { err }),
        forall|i: int|
            0 <= i < index.len() && i != bad ==> spec_object_case(d, index, #[trigger] index[i])
                == ObjectCase::Match,
        spec_file_checksum_ok(d),
    ensures
        spec_explode_sink(d, index, SafetyCheck::All) == (SpecVerdict::Aborted {
            failure: SpecFailure::Decode { err },
        }),
        spec_explode_sink(
            d,
            index,
            SafetyCheck::SkipFileAndObjectChecksumVerificationAndNoAbortOnDecodeError,
        ) == (SpecVerdict::Completed {
            written: (index.len() - 1) as nat,
            skipped: 1,
            notes: Seq::empty(),
        }),
{
    let cases = spec_cases(d, index);
    assert(cases[bad] == (ObjectCase::Undecodable { err }));
    assert(forall|i: int|
        0 <= i < cases.len() && i != bad ==> #[trigger] cases[i] == ObjectCase::Match);
    lemma_pipeline_one_undecodable(cases, bad, err, true, 0, 0, Seq::empty());
    lemma_pipeline_one_undecodable(cases, bad, err, false, 0, 0, Seq::empty());
}

} // verus!
