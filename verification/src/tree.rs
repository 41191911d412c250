//! The canonical rewriting of tree objects that the loose-object writer is
//! known to perform: a tree lists entries as a mode, a space, a name, a NUL
//! byte and a twenty-byte identity, and the two non-canonical group-writable
//! file modes are rewritten to the canonical one. A differing tree identity
//! is benign exactly when it is the identity of this rewriting.

use vstd::prelude::*;

use crate::delta::append_range;

verus! {

/// How many bytes stand between position `i` and the first `b` at or after
/// it, if there is one.
pub open spec fn spec_find_at(d: Seq<u8>, i: int, b: u8) -> Option<nat>
    decreases d.len() - i,
{
    if i < 0 || i >= d.len() {
        None
    } else if d[i] == b {
        Some(0)
    } else {
        match spec_find_at(d, i + 1, b) {
            Some(k) => Some(k + 1),
            None => None,
        }
    }
}

/// The mode bytes of a group-writable regular file.
pub open spec fn spec_mode_664() -> Seq<u8> {
    seq![49u8, 48u8, 48u8, 54u8, 54u8, 52u8]
}

/// The mode bytes of the other non-canonical regular-file encoding.
pub open spec fn spec_mode_640() -> Seq<u8> {
    seq![49u8, 48u8, 48u8, 54u8, 52u8, 48u8]
}

/// The canonical regular-file mode bytes.
pub open spec fn spec_mode_644() -> Seq<u8> {
    seq![49u8, 48u8, 48u8, 54u8, 52u8, 52u8]
}

/// The tree's entries from position `i` on, with every non-canonical file
/// mode rewritten to the canonical one and `acc` already produced; nothing
/// if the bytes are not a whole sequence of tree entries.
pub open spec fn spec_norm_entries(d: Seq<u8>, i: int, acc: Seq<u8>) -> Option<Seq<u8>>
    decreases d.len() - i,
{
    if i < 0 {
        None
    } else if i >= d.len() {
        Some(acc)
    } else {
        match spec_find_at(d, i, 32) {
            None => None,
            Some(k1) => match spec_find_at(d, i + k1 + 1, 0) {
                None => None,
                Some(k2) => {
                    let sp = i + k1;
                    let nul = sp + 1 + k2;
                    if nul + 21 <= d.len() {
                        let mode = d.subrange(i, sp);
                        let nmode = if mode == spec_mode_664() || mode == spec_mode_640() {
                            spec_mode_644()
                        } else {
                            mode
                        };
                        spec_norm_entries(d, nul + 21, acc + nmode + d.subrange(sp, nul + 21))
                    } else {
                        None
                    }
                },
            },
        }
    }
}

/// The whole tree, canonically rewritten; nothing if it is not a tree.
pub open spec fn spec_norm_tree(d: Seq<u8>) -> Option<Seq<u8>> {
    spec_norm_entries(d, 0, Seq::empty())
}

fn find_byte(d: &Vec<u8>, start: usize, b: u8) -> (r: Option<usize>)
    requires
        start <= d@.len(),
    ensures
        match spec_find_at(d@, start as int, b) {
            Some(k) => r matches Some(u) && u as int == start + k && u < d@.len(),
            None => r is None,
        },
{
    let n = d.len();
    let mut k: usize = start;
    while k < n
        invariant
            start <= k <= n,
            n == d@.len(),
            match spec_find_at(d@, start as int, b) {
                Some(j) => spec_find_at(d@, k as int, b) matches Some(j2) && start + j == k + j2,
                None => spec_find_at(d@, k as int, b) is None,
            },
        decreases n - k,
    {
        if d[k] == b {
            return Some(k);
        }
        k = k + 1;
    }
    None
}

/// Rewrites a tree object's non-canonical file modes to the canonical one,
/// as the loose-object writer does before persisting a tree.
pub fn normalize_tree(d: &Vec<u8>) -> (r: Option<Vec<u8>>)
    ensures
        match spec_norm_tree(d@) {
            Some(nd) => r matches Some(v) && v@ == nd,
            None => r is None,
        },
{
    let n = d.len();
    let mut out: Vec<u8> = Vec::new();
    let mut i: usize = 0;
    while i < n
        invariant
            i <= n,
            n == d@.len(),
            spec_norm_tree(d@) == spec_norm_entries(d@, i as int, out@),
        decreases n - i,
    {
        let sp = match find_byte(d, i, 32) {
            Some(s) => s,
            None => {
                return None;
            },
        };
        let nul = match find_byte(d, sp + 1, 0) {
            Some(x) => x,
            None => {
                return None;
            },
        };
        if n - (nul + 1) < 20 {
            return None;
        }
        let ghost mode: Seq<u8> = d@.subrange(i as int, sp as int);
        let noncanon = sp - i == 6 && d[i] == 49 && d[i + 1] == 48 && d[i + 2] == 48 && d[i + 3]
            == 54 && ((d[i + 4] == 54 && d[i + 5] == 52) || (d[i + 4] == 52 && d[i + 5] == 48));
        proof {
            if noncanon {
                assert(mode == spec_mode_664() || mode == spec_mode_640()) by {
                    if d@[i + 4] == 54 {
                        assert(mode =~= spec_mode_664());
                    } else {
                        assert(mode =~= spec_mode_640());
                    }
                }
            } else {
                if mode == spec_mode_664() {
                    assert(mode.len() == 6);
                    assert(d@[i as int] == mode[0] && d@[i + 1] == mode[1] && d@[i + 2] == mode[2]
                        && d@[i + 3] == mode[3] && d@[i + 4] == mode[4] && d@[i + 5] == mode[5]);
                    assert(false);
                }
                if mode == spec_mode_640() {
                    assert(mode.len() == 6);
                    assert(d@[i as int] == mode[0] && d@[i + 1] == mode[1] && d@[i + 2] == mode[2]
                        && d@[i + 3] == mode[3] && d@[i + 4] == mode[4] && d@[i + 5] == mode[5]);
                    assert(false);
                }
            }
        }
        let ghost out_before = out@;
        if noncanon {
            out.push(49);
            out.push(48);
            out.push(48);
            out.push(54);
            out.push(52);
            out.push(52);
            proof {
                assert(out@ =~= out_before + spec_mode_644());
            }
        } else {
            append_range(&mut out, d, i, sp - i);
        }
        let ghost out_mid = out@;
        append_range(&mut out, d, sp, nul + 21 - sp);
        i = nul + 21;
        proof {
            assert(out@ =~= out_mid + d@.subrange(sp as int, nul + 21));
        }
    }
    Some(out)
}

} // verus!
