//! Application of a delta payload to its base object. A delta opens with
//! two little-endian base-128 varints, the base's size and the result's
//! size, and then holds instructions: a high-bit opcode copies a run of the
//! base, any other non-zero opcode inserts that many following bytes, and
//! opcode zero is reserved.

use vstd::prelude::*;
use vstd::arithmetic::power2::lemma2_to64;

use crate::entry::DecodeError;
use crate::entry::VarintResult;
use crate::entry::read_base128;
use crate::entry::spec_size_tail;

verus! {

/// One bit of a copy instruction's presence mask, as zero or one.
pub open spec fn spec_bit(op: u8, m: u8) -> nat
    recommends
        m >= 1,
{
    ((op / m) % 2) as nat
}

/// One optional field byte at `pos` of `d`: a present byte is read and
/// advances the position, an absent one reads as zero.
pub open spec fn spec_field(d: Seq<u8>, pos: int, present: bool) -> (nat, int)
    recommends
        present ==> 0 <= pos < d.len(),
{
    if present {
        (d[pos] as nat, pos + 1)
    } else {
        (0, pos)
    }
}

/// The offset and size fields of a copy instruction with opcode `op`, read
/// from `d` at `i`: the mask bits of `op` say which little-endian bytes of
/// each field are present, and missing bytes are zero. Yields the two
/// fields and the position right past them.
pub open spec fn spec_copy_fields(d: Seq<u8>, i: int, op: u8) -> Option<(nat, nat, int)> {
    let total = spec_bit(op, 1) + spec_bit(op, 2) + spec_bit(op, 4) + spec_bit(op, 8) + spec_bit(
        op,
        16,
    ) + spec_bit(op, 32) + spec_bit(op, 64);
    if i < 0 || i + total > d.len() {
        None
    } else {
        let (b1, p1) = spec_field(d, i, spec_bit(op, 1) == 1);
        let (b2, p2) = spec_field(d, p1, spec_bit(op, 2) == 1);
        let (b3, p3) = spec_field(d, p2, spec_bit(op, 4) == 1);
        let (b4, p4) = spec_field(d, p3, spec_bit(op, 8) == 1);
        let (b5, p5) = spec_field(d, p4, spec_bit(op, 16) == 1);
        let (b6, p6) = spec_field(d, p5, spec_bit(op, 32) == 1);
        let (b7, p7) = spec_field(d, p6, spec_bit(op, 64) == 1);
        Some((b1 + b2 * 0x100 + b3 * 0x10000 + b4 * 0x1000000, b5 + b6 * 0x100 + b7 * 0x10000, p7))
    }
}

/// The instruction stream of a delta, applied to `base` from position `i`
/// of `d`, with `acc` already produced. A copy whose size field is zero
/// copies 65536 bytes; a copy must lie within the base; an insert must lie
/// within the delta.
pub open spec fn spec_delta_instrs(base: Seq<u8>, d: Seq<u8>, i: int, acc: Seq<u8>) -> Option<
    Seq<u8>,
>
    decreases d.len() - i,
{
    if i < 0 {
        None
    } else if i >= d.len() {
        Some(acc)
    } else {
        let op = d[i];
        if op >= 128 {
            match spec_copy_fields(d, i + 1, op) {
                None => None,
                Some((cp_off, cp_size0, j)) => {
                    let cp_size = if cp_size0 == 0 {
                        0x10000 as nat
                    } else {
                        cp_size0
                    };
                    if cp_off + cp_size <= base.len() {
                        spec_delta_instrs(
                            base,
                            d,
                            j,
                            acc + base.subrange(cp_off as int, (cp_off + cp_size) as int),
                        )
                    } else {
                        None
                    }
                },
            }
        } else if op == 0 {
            None
        } else {
            if i + 1 + op <= d.len() {
                spec_delta_instrs(base, d, i + 1 + op, acc + d.subrange(i + 1, i + 1 + op))
            } else {
                None
            }
        }
    }
}

/// What applying the delta `d` to `base` yields: the reconstructed object,
/// or nothing if the delta is malformed, does not match the base's size, or
/// does not produce exactly its declared result size.
pub open spec fn spec_apply_delta(base: Seq<u8>, d: Seq<u8>) -> Option<Seq<u8>> {
    match spec_size_tail(d, 0, 0, 0) {
        VarintResult::Done { value: bsize, next: i } => {
            if bsize != base.len() {
                None
            } else {
                match spec_size_tail(d, i, 0, 0) {
                    VarintResult::Done { value: rsize, next: j } => {
                        match spec_delta_instrs(base, d, j, Seq::empty()) {
                            Some(out) => if out.len() == rsize {
                                Some(out)
                            } else {
                                None
                            },
                            None => None,
                        }
                    },
                    _ => None,
                }
            }
        },
        _ => None,
    }
}

/// Appends `len` bytes of `src`, starting at `start`, to `out`.
pub(crate) fn append_range(out: &mut Vec<u8>, src: &Vec<u8>, start: usize, len: usize)
    requires
        start + len <= src@.len(),
    ensures
        final(out)@ == old(out)@ + src@.subrange(start as int, start + len),
{
    let ghost before = out@;
    let sn = src.len();
    let mut t: usize = 0;
    while t < len
        invariant
            t <= len,
            start + len <= src@.len(),
            sn == src@.len(),
            out@ == before + src@.subrange(start as int, start + t),
        decreases len - t,
    {
        out.push(src[start + t]);
        t = t + 1;
        proof {
            assert(out@ =~= before + src@.subrange(start as int, start + t));
        }
    }
}

/// Reads the offset and size fields of a copy instruction with opcode `op`,
/// starting right past the opcode at `cur + 1`.
#[verifier::rlimit(100)]
#[verifier::spinoff_prover]
fn read_copy_fields(d: &Vec<u8>, cur: usize, op: u8) -> (r: Result<(u64, u64, usize), DecodeError>)
    requires
        cur < d@.len(),
        op >= 128,
    ensures
        match spec_copy_fields(d@, cur + 1, op) {
            Some((off, size, next)) => r matches Ok(t) && t.0 as nat == off && t.1 as nat == size
                && t.2 as int == next && t.2 <= d@.len(),
            None => r matches Err(e) && e == DecodeError::Delta,
        },
{
    let dn = d.len();
    let n1 = ((op / 1) % 2) as usize;
    let n2 = ((op / 2) % 2) as usize;
    let n4 = ((op / 4) % 2) as usize;
    let n8 = ((op / 8) % 2) as usize;
    let n16 = ((op / 16) % 2) as usize;
    let n32 = ((op / 32) % 2) as usize;
    let n64 = ((op / 64) % 2) as usize;
    let i0 = cur + 1;
    let total = n1 + n2 + n4 + n8 + n16 + n32 + n64;
    if dn - i0 < total {
        return Err(DecodeError::Delta);
    }
    proof {
        assert(n1 as nat == spec_bit(op, 1));
        assert(n2 as nat == spec_bit(op, 2));
        assert(n4 as nat == spec_bit(op, 4));
        assert(n8 as nat == spec_bit(op, 8));
        assert(n16 as nat == spec_bit(op, 16));
        assert(n32 as nat == spec_bit(op, 32));
        assert(n64 as nat == spec_bit(op, 64));
    }
    let (b1, p1) = field_byte(d, i0, n1 == 1);
    let (b2, p2) = field_byte(d, p1, n2 == 1);
    let (b3, p3) = field_byte(d, p2, n4 == 1);
    let (b4, p4) = field_byte(d, p3, n8 == 1);
    let (b5, p5) = field_byte(d, p4, n16 == 1);
    let (b6, p6) = field_byte(d, p5, n32 == 1);
    let (b7, p7) = field_byte(d, p6, n64 == 1);
    let cp_off = b1 + b2 * 0x100 + b3 * 0x10000 + b4 * 0x1000000;
    let cp_size = b5 + b6 * 0x100 + b7 * 0x10000;
    Ok((cp_off, cp_size, p7))
}

/// Reads one optional little-endian field byte: present bytes advance the
/// position, absent ones read as zero.
fn field_byte(d: &Vec<u8>, pos: usize, present: bool) -> (r: (u64, usize))
    requires
        pos <= d@.len(),
        present ==> pos < d@.len(),
    ensures
        r.0 as nat == (if present {
            d@[pos as int] as nat
        } else {
            0
        }),
        r.1 as int == pos + (if present {
            1int
        } else {
            0
        }),
        r.1 <= d@.len(),
{
    let _len = d.len();
    if present {
        (d[pos] as u64, pos + 1)
    } else {
        (0, pos)
    }
}

/// Reconstructs an object from its base and a delta payload.
#[verifier::rlimit(100)]
pub fn apply_delta(base: &Vec<u8>, d: &Vec<u8>) -> (r: Result<Vec<u8>, DecodeError>)
    ensures
        match spec_apply_delta(base@, d@) {
            Some(out) => r matches Ok(v) && v@ == out,
            None => r matches Err(e) && e == DecodeError::Delta,
        },
{
    proof {
        lemma2_to64();
    }
    let (bsize, i) = match read_base128(d, 0, 0, 1, Ghost(0nat)) {
        Ok(p) => p,
        Err(_) => {
            return Err(DecodeError::Delta);
        },
    };
    if bsize != base.len() as u64 {
        return Err(DecodeError::Delta);
    }
    let (rsize, j) = match read_base128(d, i, 0, 1, Ghost(0nat)) {
        Ok(p) => p,
        Err(_) => {
            return Err(DecodeError::Delta);
        },
    };
    let dn = d.len();
    let bn = base.len();
    let mut out: Vec<u8> = Vec::new();
    let mut cur: usize = j;
    while cur < dn
        invariant
            j <= cur <= dn,
            dn == d@.len(),
            bn == base@.len(),
            spec_size_tail(d@, 0, 0, 0) == (VarintResult::Done {
                value: bsize as nat,
                next: i as int,
            }),
            bsize as nat == base@.len(),
            spec_size_tail(d@, i as int, 0, 0) == (VarintResult::Done {
                value: rsize as nat,
                next: j as int,
            }),
            spec_delta_instrs(base@, d@, j as int, Seq::empty()) == spec_delta_instrs(
                base@,
                d@,
                cur as int,
                out@,
            ),
        decreases dn - cur,
    {
        let op = d[cur];
        if op >= 128 {
            let (cp_off, cp_size, p) = match read_copy_fields(d, cur, op) {
                Ok(t) => t,
                Err(e) => {
                    return Err(e);
                },
            };
            let size_val: u64 = if cp_size == 0 {
                0x10000
            } else {
                cp_size
            };
            if cp_off > bn as u64 || size_val > bn as u64 - cp_off {
                return Err(DecodeError::Delta);
            }
            let off_us = cp_off as usize;
            let sz_us = size_val as usize;
            append_range(&mut out, base, off_us, sz_us);
            cur = p;
        } else if op == 0 {
            return Err(DecodeError::Delta);
        } else {
            let cnt = op as usize;
            if dn - (cur + 1) < cnt {
                return Err(DecodeError::Delta);
            }
            append_range(&mut out, d, cur + 1, cnt);
            cur = cur + 1 + cnt;
        }
    }
    if out.len() as u64 == rsize {
        Ok(out)
    } else {
        Err(DecodeError::Delta)
    }
}

} // verus!
