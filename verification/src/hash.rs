//! Content identities. An object's identity is the SHA-1 digest of its
//! canonical serialized form: the kind's name, a space, the content length
//! in decimal, a NUL byte, then the content. The digest itself comes from an
//! outside crate; everything around it is built and proved here.

use vstd::prelude::*;

use sha1::Digest;

verus! {

/// The kind of a fully decoded object.
#[derive(Clone, Copy, Debug, PartialEq, Eq, Structural)]
pub enum ObjectKind {
    Commit,
    Tree,
    Blob,
    Tag,
}

/// The SHA-1 digest of `s`: twenty bytes, a function of `s` alone.
pub uninterp spec fn sha1_of(s: Seq<u8>) -> Seq<u8>;

/// Relies on the sha1 crate's `Sha1::digest`: the digest of `d[start..end]`,
/// always twenty bytes, a function of those bytes alone.
#[verifier::external_body]
pub fn sha1_range(d: &Vec<u8>, start: usize, end: usize) -> (r: Vec<u8>)
    requires
        start <= end <= d@.len(),
    ensures
        r@ == sha1_of(d@.subrange(start as int, end as int)),
        r@.len() == 20,
{
    sha1::Sha1::digest(&d[start..end]).to_vec()
}

impl ObjectKind {
    /// The kind's name as the bytes that open a loose object's header.
    pub open spec fn spec_tag(self) -> Seq<u8> {
        match self {
            ObjectKind::Commit => seq![99u8, 111u8, 109u8, 109u8, 105u8, 116u8],
            ObjectKind::Tree => seq![116u8, 114u8, 101u8, 101u8],
            ObjectKind::Blob => seq![98u8, 108u8, 111u8, 98u8],
            ObjectKind::Tag => seq![116u8, 97u8, 103u8],
        }
    }

    fn push_tag(self, out: &mut Vec<u8>)
        ensures
            final(out)@ == old(out)@ + self.spec_tag(),
    {
        match self {
            ObjectKind::Commit => {
                out.push(99);
                out.push(111);
                out.push(109);
                out.push(109);
                out.push(105);
                out.push(116);
            },
            ObjectKind::Tree => {
                out.push(116);
                out.push(114);
                out.push(101);
                out.push(101);
            },
            ObjectKind::Blob => {
                out.push(98);
                out.push(108);
                out.push(111);
                out.push(98);
            },
            ObjectKind::Tag => {
                out.push(116);
                out.push(97);
                out.push(103);
            },
        }
        proof {
            assert(out@ =~= old(out)@ + self.spec_tag());
        }
    }
}

/// The decimal digits of `n`, most significant first.
pub open spec fn spec_decimal(n: nat) -> Seq<u8>
    decreases n,
{
    if n < 10 {
        seq![(48 + n) as u8]
    } else {
        spec_decimal(n / 10) + seq![(48 + n % 10) as u8]
    }
}

fn push_decimal(n: u64, out: &mut Vec<u8>)
    ensures
        final(out)@ == old(out)@ + spec_decimal(n as nat),
    decreases n,
{
    if n >= 10 {
        push_decimal(n / 10, out);
    }
    out.push(48 + (n % 10) as u8);
    proof {
        assert(out@ =~= old(out)@ + spec_decimal(n as nat));
    }
}

/// The canonical serialized form of an object.
pub open spec fn spec_loose_bytes(kind: ObjectKind, data: Seq<u8>) -> Seq<u8> {
    kind.spec_tag() + seq![32u8] + spec_decimal(data.len()) + seq![0u8] + data
}

/// The content identity of an object: the digest of its canonical
/// serialized form.
pub open spec fn spec_object_id(kind: ObjectKind, data: Seq<u8>) -> Seq<u8> {
    sha1_of(spec_loose_bytes(kind, data))
}

/// Recomputes an object's content identity from its kind and content, as
/// the loose-object writer does from the bytes it persists.
pub fn compute_object_id(kind: ObjectKind, data: &Vec<u8>) -> (r: Vec<u8>)
    ensures
        r@ == spec_object_id(kind, data@),
        r@.len() == 20,
{
    let mut buf: Vec<u8> = Vec::new();
    kind.push_tag(&mut buf);
    buf.push(32);
    push_decimal(data.len() as u64, &mut buf);
    buf.push(0);
    let ghost head: Seq<u8> = buf@;
    let mut k: usize = 0;
    while k < data.len()
        invariant
            k <= data@.len(),
            buf@ == head + data@.subrange(0, k as int),
        decreases data@.len() - k,
    {
        buf.push(data[k]);
        k = k + 1;
        proof {
            assert(buf@ =~= head + data@.subrange(0, k as int));
        }
    }
    proof {
        assert(data@.subrange(0, data@.len() as int) =~= data@);
        assert(buf@ =~= spec_loose_bytes(kind, data@));
    }
    let n = buf.len();
    let digest = sha1_range(&buf, 0, n);
    proof {
        assert(buf@.subrange(0, buf@.len() as int) =~= buf@);
    }
    digest
}

/// Whether `a` equals the run of `b` that starts at `start` and is as long
/// as `a`.
pub fn eq_slice_at(a: &Vec<u8>, b: &Vec<u8>, start: usize) -> (r: bool)
    requires
        start + a@.len() <= b@.len(),
    ensures
        r == (a@ == b@.subrange(start as int, start + a@.len())),
{
    let n = a.len();
    let bn = b.len();
    let mut k: usize = 0;
    while k < n
        invariant
            n == a@.len(),
            bn == b@.len(),
            start + n <= b@.len(),
            b@.len() <= usize::MAX,
            k <= n,
            forall|j: int| 0 <= j < k ==> a@[j] == b@[start + j],
        decreases n - k,
    {
        if a[k] != b[start + k] {
            proof {
                assert(a@[k as int] != b@.subrange(start as int, start + a@.len())[k as int]);
            }
            return false;
        }
        k = k + 1;
    }
    proof {
        assert(a@ =~= b@.subrange(start as int, start + a@.len()));
    }
    true
}

/// Whether two byte strings are equal.
pub fn bytes_eq(a: &Vec<u8>, b: &Vec<u8>) -> (r: bool)
    ensures
        r == (a@ == b@),
{
    if a.len() != b.len() {
        return false;
    }
    let r = eq_slice_at(a, b, 0);
    proof {
        assert(b@.subrange(0, a@.len() as int) =~= b@);
    }
    r
}

/// Copies a byte string.
pub fn copy_bytes(v: &Vec<u8>) -> (r: Vec<u8>)
    ensures
        r@ == v@,
{
    let mut out: Vec<u8> = Vec::new();
    let mut k: usize = 0;
    while k < v.len()
        invariant
            k <= v@.len(),
            out@ == v@.subrange(0, k as int),
        decreases v@.len() - k,
    {
        out.push(v[k]);
        k = k + 1;
        proof {
            assert(out@ =~= v@.subrange(0, k as int));
        }
    }
    proof {
        assert(v@.subrange(0, v@.len() as int) =~= v@);
    }
    out
}

/// Whether the archive's trailing checksum matches the digest of everything
/// before it.
pub open spec fn spec_file_checksum_ok(d: Seq<u8>) -> bool {
    d.len() >= 20 && sha1_of(d.subrange(0, d.len() - 20)) == d.subrange(
        d.len() - 20,
        d.len() as int,
    )
}

/// Verifies the archive's trailing whole-file checksum.
pub fn verify_file_checksum(d: &Vec<u8>) -> (r: bool)
    ensures
        r == spec_file_checksum_ok(d@),
{
    let n = d.len();
    if n < 20 {
        return false;
    }
    let digest = sha1_range(d, 0, n - 20);
    eq_slice_at(&digest, d, n - 20)
}

} // verus!
