//! Binary delta patching: a reversible representation of the difference
//! between two streams, with cryptographically strong version identity.
//!
//! A patch carries the BLAKE3 hashes of its base and target and a list of
//! copy/insert/replace operations. Applying a patch reconstructs the target
//! and verifies its hash; generation matches the common prefix and suffix
//! of base and target and inserts the middle.

use vstd::prelude::*;

use crate::crypto::blake3_hash;
use crate::crypto::blake3_of;
use crate::wire::DecodeError;

verus! {

/// A delta operation: copy a range of the base, insert new bytes, or
/// replace a range of the base with new bytes.
#[derive(Debug, Clone, PartialEq, Eq)]
pub enum DeltaOp {
    Copy { offset: u32, length: u32 },
    Insert { data: Vec<u8> },
    Replace { offset: u32, length: u32, data: Vec<u8> },
}

/// The mathematical shape of a delta operation.
pub enum DeltaOpV {
    Copy { offset: u32, length: u32 },
    Insert { data: Seq<u8> },
    Replace { offset: u32, length: u32, data: Seq<u8> },
}

impl View for DeltaOp {
    type V = DeltaOpV;

    open spec fn view(&self) -> DeltaOpV {
        match self {
            DeltaOp::Copy { offset, length } => DeltaOpV::Copy {
                offset: *offset,
                length: *length,
            },
            DeltaOp::Insert { data } => DeltaOpV::Insert { data: data@ },
            DeltaOp::Replace { offset, length, data } => DeltaOpV::Replace {
                offset: *offset,
                length: *length,
                data: data@,
            },
        }
    }
}

/// A delta patch: the base and target version hashes and the operations
/// that rebuild the target from the base.
#[derive(Debug, Clone, PartialEq, Eq)]
pub struct DeltaPatch {
    pub base_hash: [u8; 32],
    pub target_hash: [u8; 32],
    pub operations: Vec<DeltaOp>,
}

/// The deep view of a patch's operations.
pub open spec fn delta_ops_view(ops: Seq<DeltaOp>) -> Seq<DeltaOpV> {
    ops.map_values(|o: DeltaOp| o@)
}

/// The bytes one operation contributes to the target. A copy or replace
/// whose range reaches outside the base makes the patch unusable.
pub open spec fn apply_op_spec(base: Seq<u8>, op: DeltaOpV) -> Option<Seq<u8>> {
    match op {
        DeltaOpV::Copy { offset, length } => if offset + length <= base.len() {
            Some(base.subrange(offset as int, offset + length))
        } else {
            None
        },
        DeltaOpV::Insert { data } => Some(data),
        DeltaOpV::Replace { offset, length, data } => if offset + length <= base.len() {
            Some(data)
        } else {
            None
        },
    }
}

/// The target an operation list rebuilds from a base, when every range
/// lies inside the base.
pub open spec fn apply_ops_spec(base: Seq<u8>, ops: Seq<DeltaOpV>) -> Option<Seq<u8>>
    decreases ops.len(),
{
    if ops.len() == 0 {
        Some(Seq::empty())
    } else {
        match apply_op_spec(base, ops[0]) {
            None => None,
            Some(piece) => match apply_ops_spec(base, ops.skip(1)) {
                None => None,
                Some(rest) => Some(piece + rest),
            },
        }
    }
}

/// The length of the longest common prefix of two byte sequences.
pub open spec fn common_prefix(a: Seq<u8>, b: Seq<u8>) -> int
    decreases a.len(),
{
    if a.len() == 0 || b.len() == 0 || a[0] != b[0] {
        0
    } else {
        1 + common_prefix(a.skip(1), b.skip(1))
    }
}

/// The length of the longest common suffix of two byte sequences, capped
/// so that it does not overlap the common prefix.
pub open spec fn common_suffix_capped(a: Seq<u8>, b: Seq<u8>, cap: int) -> int
    decreases cap,
{
    if cap <= 0 || a.len() == 0 || b.len() == 0 || a.last() != b.last() {
        0
    } else {
        1 + common_suffix_capped(a.drop_last(), b.drop_last(), cap - 1)
    }
}

/// The operations the generator produces: copy the common prefix, insert
/// the changed middle of the target, copy the common suffix.
pub open spec fn delta_ops_of(base: Seq<u8>, target: Seq<u8>) -> Seq<DeltaOpV> {
    let p = common_prefix(base, target);
    let cap = if base.len() <= target.len() {
        base.len() - p
    } else {
        target.len() - p
    };
    let s = common_suffix_capped(base, target, cap);
    let pre: Seq<DeltaOpV> = if p > 0 {
        seq![DeltaOpV::Copy { offset: 0, length: p as u32 }]
    } else {
        Seq::empty()
    };
    let mid: Seq<DeltaOpV> = if target.len() - p - s > 0 {
        seq![DeltaOpV::Insert { data: target.subrange(p, target.len() - s) }]
    } else {
        Seq::empty()
    };
    let suf: Seq<DeltaOpV> = if s > 0 {
        seq![
            DeltaOpV::Copy {
                offset: (base.len() - s) as u32,
                length: s as u32,
            },
        ]
    } else {
        Seq::empty()
    };
    pre + mid + suf
}

pub proof fn lemma_common_prefix_bounds(a: Seq<u8>, b: Seq<u8>)
    ensures
        0 <= common_prefix(a, b) <= a.len(),
        common_prefix(a, b) <= b.len(),
        forall|j: int| 0 <= j < common_prefix(a, b) ==> a[j] == b[j],
    decreases a.len(),
{
    if a.len() == 0 || b.len() == 0 || a[0] != b[0] {
    } else {
        lemma_common_prefix_bounds(a.skip(1), b.skip(1));
        let p = common_prefix(a, b);
        assert forall|j: int| 0 <= j < p implies a[j] == b[j] by {
            if j > 0 {
                assert(a.skip(1)[j - 1] == a[j]);
                assert(b.skip(1)[j - 1] == b[j]);
            }
        }
    }
}

pub proof fn lemma_common_suffix_bounds(a: Seq<u8>, b: Seq<u8>, cap: int)
    ensures
        0 <= common_suffix_capped(a, b, cap) <= cap || cap < 0,
        common_suffix_capped(a, b, cap) <= a.len(),
        common_suffix_capped(a, b, cap) <= b.len(),
        forall|j: int|
            0 <= j < common_suffix_capped(a, b, cap) ==> #[trigger] a[a.len() - 1 - j] == b[b.len()
                - 1 - j],
    decreases cap,
{
    if cap <= 0 || a.len() == 0 || b.len() == 0 || a.last() != b.last() {
    } else {
        lemma_common_suffix_bounds(a.drop_last(), b.drop_last(), cap - 1);
        let s = common_suffix_capped(a, b, cap);
        assert forall|j: int| 0 <= j < s implies #[trigger] a[a.len() - 1 - j] == b[b.len() - 1
            - j] by {
            if j > 0 {
                assert(a.drop_last()[a.len() - 2 - (j - 1)] == a[a.len() - 1 - j]);
                assert(b.drop_last()[b.len() - 2 - (j - 1)] == b[b.len() - 1 - j]);
            }
        }
    }
}

/// Patch law: applying the generated operations to the base rebuilds the
/// target exactly, for every pair of byte sequences whose lengths fit the
/// wire's 32-bit offsets.
pub proof fn lemma_patch_roundtrip(base: Seq<u8>, target: Seq<u8>)
    requires
        base.len() <= 0xFFFFFFFF,
        target.len() <= 0xFFFFFFFF,
    ensures
        apply_ops_spec(base, delta_ops_of(base, target)) == Some(target),
{
    let p = common_prefix(base, target);
    let cap = if base.len() <= target.len() {
        base.len() - p
    } else {
        target.len() - p
    };
    let s = common_suffix_capped(base, target, cap);
    lemma_common_prefix_bounds(base, target);
    lemma_common_suffix_bounds(base, target, cap);
    let pre: Seq<DeltaOpV> = if p > 0 {
        seq![DeltaOpV::Copy { offset: 0, length: p as u32 }]
    } else {
        Seq::empty()
    };
    let mid: Seq<DeltaOpV> = if target.len() - p - s > 0 {
        seq![DeltaOpV::Insert { data: target.subrange(p, target.len() - s) }]
    } else {
        Seq::empty()
    };
    let suf: Seq<DeltaOpV> = if s > 0 {
        seq![
            DeltaOpV::Copy {
                offset: (base.len() - s) as u32,
                length: s as u32,
            },
        ]
    } else {
        Seq::empty()
    };
    let ops = pre + mid + suf;
    assert(delta_ops_of(base, target) == ops);
    // the three contributed pieces
    let piece_pre = base.subrange(0, p);
    let piece_mid = target.subrange(p, target.len() - s);
    let piece_suf = base.subrange(base.len() - s, base.len() as int);
    assert(piece_pre =~= target.subrange(0, p));
    assert(piece_suf =~= target.subrange(target.len() - s, target.len() as int)) by {
        assert forall|j: int| 0 <= j < s implies #[trigger] base.subrange(
            base.len() - s,
            base.len() as int,
        )[j] == target.subrange(target.len() - s, target.len() as int)[j] by {
            assert(base[base.len() - s + j] == base[base.len() - 1 - (s - 1 - j)]);
            assert(target[target.len() - s + j] == target[target.len() - 1 - (s - 1 - j)]);
        }
    }
    // evaluate the op list
    let full = if p > 0 {
        seq![piece_pre]
    } else {
        Seq::<Seq<u8>>::empty()
    };
    assert(apply_ops_spec(base, ops) == Some(target)) by {
        reveal_with_fuel(apply_ops_spec, 5);
        if p > 0 {
            assert(ops[0] == DeltaOpV::Copy { offset: 0, length: p as u32 });
            assert(apply_op_spec(base, ops[0]) == Some(piece_pre));
        }
        if target.len() - p - s > 0 {
            assert(ops[pre.len() as int] == DeltaOpV::Insert { data: piece_mid });
        }
        if s > 0 {
            assert(ops[pre.len() + mid.len() as int] == DeltaOpV::Copy {
                offset: (base.len() - s) as u32,
                length: s as u32,
            });
            assert(apply_op_spec(base, ops[pre.len() + mid.len() as int]) == Some(piece_suf));
        }
        let tail1 = ops.skip(1);
        let tail2 = tail1.skip(1);
        if ops.len() == 0 {
            assert(target =~= Seq::<u8>::empty());
        } else if ops.len() == 1 {
            assert(apply_ops_spec(base, ops.skip(1)) == Some(Seq::<u8>::empty()));
            if p > 0 {
                assert(target =~= piece_pre + Seq::<u8>::empty());
            } else if target.len() - p - s > 0 {
                assert(target =~= piece_mid + Seq::<u8>::empty());
            } else {
                assert(target =~= piece_suf + Seq::<u8>::empty());
            }
        } else if ops.len() == 2 {
            assert(ops.skip(1).skip(1) =~= Seq::<DeltaOpV>::empty());
            if p > 0 && target.len() - p - s > 0 {
                assert(ops.skip(1)[0] == ops[1]);
                assert(target =~= piece_pre + (piece_mid + Seq::<u8>::empty()));
            } else if p > 0 && s > 0 {
                assert(ops.skip(1)[0] == ops[1]);
                assert(target =~= piece_pre + (piece_suf + Seq::<u8>::empty()));
            } else {
                assert(ops.skip(1)[0] == ops[1]);
                assert(target =~= piece_mid + (piece_suf + Seq::<u8>::empty()));
            }
        } else {
            assert(ops.len() == 3);
            assert(ops.skip(1)[0] == ops[1]);
            assert(ops.skip(1).skip(1)[0] == ops[2]);
            assert(ops.skip(1).skip(1).skip(1) =~= Seq::<DeltaOpV>::empty());
            assert(target =~= piece_pre + (piece_mid + (piece_suf + Seq::<u8>::empty())));
        }
    }
}

/// Copy 32 hash bytes into a fixed array.
fn to_hash32(h: &Vec<u8>) -> (r: [u8; 32])
    requires
        h@.len() == 32,
    ensures
        r@ == h@,
{
    let mut arr = [0u8; 32];
    let mut i: usize = 0;
    while i < 32
        invariant
            i <= 32,
            h@.len() == 32,
            arr@.len() == 32,
            forall|j: int| 0 <= j < i ==> arr@[j] == h@[j],
        decreases 32 - i,
    {
        arr[i] = h[i];
        i = i + 1;
    }
    proof {
        assert(arr@ =~= h@);
    }
    arr
}

/// Copy 32 bytes at offset `i` of a slice into a fixed array.
pub(crate) fn to_hash32_slice(b: &[u8], i: usize) -> (r: [u8; 32])
    requires
        i + 32 <= b@.len(),
    ensures
        r@ == b@.subrange(i as int, i + 32),
{
    let blen = b.len();
    proof {
        assert(i + 32 <= blen);
    }
    let mut arr = [0u8; 32];
    let mut k: usize = 0;
    while k < 32
        invariant
            k <= 32,
            i + 32 <= b@.len(),
            b@.len() <= usize::MAX,
            arr@.len() == 32,
            forall|j: int| 0 <= j < k ==> arr@[j] == b@[i + j],
        decreases 32 - k,
    {
        arr[k] = b[i + k];
        k = k + 1;
    }
    proof {
        assert(arr@ =~= b@.subrange(i as int, i + 32));
    }
    arr
}

/// Generate a delta patch from `base` to `target`: hash both versions,
/// copy the common prefix and suffix, insert the changed middle. The
/// patch's operations always rebuild `target` exactly (`lemma_patch_roundtrip`).
pub fn generate_delta(base: &[u8], target: &[u8]) -> (r: Result<DeltaPatch, DecodeError>)
    requires
        base@.len() <= 0xFFFFFFFF,
        target@.len() <= 0xFFFFFFFF,
    ensures
        r is Ok,
        r matches Ok(p) ==> p.base_hash@ == blake3_of(base@) && p.target_hash@ == blake3_of(
            target@,
        ) && delta_ops_view(p.operations@) == delta_ops_of(base@, target@) && apply_ops_spec(
            base@,
            delta_ops_view(p.operations@),
        ) == Some(target@),
{
    let ghost gp = common_prefix(base@, target@);
    let ghost gs = common_suffix_capped(
        base@,
        target@,
        if base@.len() <= target@.len() {
            base@.len() - gp
        } else {
            target@.len() - gp
        },
    );
    proof {
        lemma_common_prefix_bounds(base@, target@);
    }
    let shorter: usize = if base.len() <= target.len() {
        base.len()
    } else {
        target.len()
    };
    let mut p: usize = 0;
    while p < shorter && base[p] == target[p]
        invariant
            p <= shorter,
            shorter == if base@.len() <= target@.len() {
                base@.len()
            } else {
                target@.len()
            },
            forall|j: int| 0 <= j < p ==> base@[j] == target@[j],
        decreases shorter - p,
    {
        p = p + 1;
    }
    proof {
        lemma_common_prefix_char(base@, target@, p as int);
    }
    let cap = shorter - p;
    let mut s: usize = 0;
    while s < cap && base[base.len() - 1 - s] == target[target.len() - 1 - s]
        invariant
            s <= cap,
            cap == shorter - p,
            p <= shorter,
            shorter == if base@.len() <= target@.len() {
                base@.len()
            } else {
                target@.len()
            },
            shorter <= base@.len(),
            shorter <= target@.len(),
            forall|j: int|
                0 <= j < s ==> #[trigger] base@[base@.len() - 1 - j] == target@[target@.len() - 1
                    - j],
        decreases cap - s,
    {
        s = s + 1;
    }
    proof {
        lemma_common_suffix_char(base@, target@, cap as int, s as int);
        assert(gs == s as int);
        assert(gp == p as int);
    }
    let mut operations: Vec<DeltaOp> = Vec::new();
    if p > 0 {
        operations.push(DeltaOp::Copy { offset: 0, length: p as u32 });
    }
    if target.len() - s > p {
        let mid = vstd::slice::slice_to_vec(vstd::slice::slice_subrange(
            target,
            p,
            target.len() - s,
        ));
        operations.push(DeltaOp::Insert { data: mid });
    }
    if s > 0 {
        operations.push(
            DeltaOp::Copy { offset: (base.len() - s) as u32, length: s as u32 },
        );
    }
    let bh = blake3_hash(base);
    let th = blake3_hash(target);
    let patch = DeltaPatch {
        base_hash: to_hash32(&bh),
        target_hash: to_hash32(&th),
        operations,
    };
    proof {
        assert(delta_ops_view(patch.operations@) =~= delta_ops_of(base@, target@));
        lemma_patch_roundtrip(base@, target@);
    }
    Ok(patch)
}

/// A maximal matching scan gives exactly `common_prefix`.
proof fn lemma_common_prefix_char(a: Seq<u8>, b: Seq<u8>, p: int)
    requires
        0 <= p <= a.len(),
        p <= b.len(),
        forall|j: int| 0 <= j < p ==> a[j] == b[j],
        p < a.len() && p < b.len() ==> a[p] != b[p],
    ensures
        common_prefix(a, b) == p,
    decreases p,
{
    if p == 0 {
    } else {
        assert(a[0] == b[0]);
        assert(forall|j: int| 0 <= j < p - 1 ==> a.skip(1)[j] == b.skip(1)[j]);
        lemma_common_prefix_char(a.skip(1), b.skip(1), p - 1);
    }
}

/// A maximal matching scan from the ends gives exactly
/// `common_suffix_capped`.
proof fn lemma_common_suffix_char(a: Seq<u8>, b: Seq<u8>, cap: int, s: int)
    requires
        0 <= s <= cap,
        cap <= a.len(),
        cap <= b.len(),
        forall|j: int| 0 <= j < s ==> #[trigger] a[a.len() - 1 - j] == b[b.len() - 1 - j],
        s < cap ==> a[a.len() - 1 - s] != b[b.len() - 1 - s],
    ensures
        common_suffix_capped(a, b, cap) == s,
    decreases s, cap,
{
    if s == 0 {
        if cap > 0 && a.len() > 0 && b.len() > 0 && a.last() == b.last() {
            assert(a[a.len() - 1 - 0] == b[b.len() - 1 - 0]);
            assert(false);
        }
    } else {
        assert(a.last() == b.last()) by {
            assert(a[a.len() - 1 - 0] == b[b.len() - 1 - 0]);
        }
        assert(forall|j: int|
            0 <= j < s - 1 ==> #[trigger] a.drop_last()[a.drop_last().len() - 1 - j]
                == b.drop_last()[b.drop_last().len() - 1 - j]) by {
            assert(forall|j: int|
                0 <= j < s - 1 ==> #[trigger] a.drop_last()[a.drop_last().len() - 1 - j] == a[
                    a.len() - 1 - (j + 1)]);
            assert(forall|j: int|
                0 <= j < s - 1 ==> #[trigger] b.drop_last()[b.drop_last().len() - 1 - j] == b[
                    b.len() - 1 - (j + 1)]);
        }
        if s - 1 < cap - 1 {
            assert(a.drop_last()[a.drop_last().len() - 1 - (s - 1)] == a[a.len() - 1 - s]);
            assert(b.drop_last()[b.drop_last().len() - 1 - (s - 1)] == b[b.len() - 1 - s]);
        }
        lemma_common_suffix_char(a.drop_last(), b.drop_last(), cap - 1, s - 1);
    }
}

/// Apply a delta patch to a base version: rebuild the target and verify
/// its hash. A range outside the base or a rebuilt version whose BLAKE3
/// hash differs from the patch's target hash is `PatchCorrupt`, and the
/// caller must fall back to a full stream.
pub fn apply_delta(base: &[u8], delta: &DeltaPatch) -> (r: Result<Vec<u8>, DecodeError>)
    ensures
        r matches Ok(out) ==> apply_ops_spec(base@, delta_ops_view(delta.operations@)) == Some(
            out@,
        ) && blake3_of(out@) == delta.target_hash@,
        r matches Err(e) ==> e == DecodeError::PatchCorrupt && (match apply_ops_spec(
            base@,
            delta_ops_view(delta.operations@),
        ) {
            None => true,
            Some(s) => blake3_of(s) != delta.target_hash@,
        }),
{
    let ghost dops = delta_ops_view(delta.operations@);
    let mut out: Vec<u8> = Vec::new();
    let mut k: usize = 0;
    proof {
        assert(dops.skip(0) =~= dops);
        match apply_ops_spec(base@, dops) {
            Some(rest) => {
                assert(Seq::<u8>::empty() + rest =~= rest);
                assert(out@ + rest =~= rest);
            },
            None => {
            },
        }
    }
    while k < delta.operations.len()
        invariant
            k <= delta.operations@.len(),
            dops == delta_ops_view(delta.operations@),
            apply_ops_spec(base@, dops) == (match apply_ops_spec(base@, dops.skip(k as int)) {
                None => None::<Seq<u8>>,
                Some(rest) => Some(out@ + rest),
            }),
        decreases delta.operations@.len() - k,
    {
        let ghost out_pre = out@;
        proof {
            assert(dops.skip(k as int)[0] == dops[k as int]);
            assert(dops[k as int] == delta.operations@[k as int]@);
            assert(dops.skip(k as int).skip(1) =~= dops.skip(k as int + 1));
        }
        let piece_ok: bool;
        match &delta.operations[k] {
            DeltaOp::Copy { offset, length } => {
                if (*offset as u64) + (*length as u64) <= base.len() as u64 {
                    let start = *offset as usize;
                    let end = start + *length as usize;
                    let mut piece = vstd::slice::slice_to_vec(vstd::slice::slice_subrange(
                        base,
                        start,
                        end,
                    ));
                    out.append(&mut piece);
                    piece_ok = true;
                } else {
                    piece_ok = false;
                }
            },
            DeltaOp::Insert { data } => {
                let mut piece = vstd::slice::slice_to_vec(data.as_slice());
                out.append(&mut piece);
                piece_ok = true;
            },
            DeltaOp::Replace { offset, length, data } => {
                if (*offset as u64) + (*length as u64) <= base.len() as u64 {
                    let mut piece = vstd::slice::slice_to_vec(data.as_slice());
                    out.append(&mut piece);
                    piece_ok = true;
                } else {
                    piece_ok = false;
                }
            },
        }
        if !piece_ok {
            proof {
                assert(apply_op_spec(base@, dops[k as int]) is None);
                assert(apply_ops_spec(base@, dops.skip(k as int)) is None);
            }
            return Err(DecodeError::PatchCorrupt);
        }
        proof {
            match apply_op_spec(base@, dops[k as int]) {
                None => {
                    assert(false);
                },
                Some(piece) => {
                    assert(out@ == out_pre + piece);
                    match apply_ops_spec(base@, dops.skip(k as int + 1)) {
                        None => {
                        },
                        Some(rest) => {
                            assert(out_pre + (piece + rest) =~= (out_pre + piece) + rest);
                        },
                    }
                },
            }
        }
        k = k + 1;
    }
    proof {
        assert(dops.skip(dops.len() as int) =~= Seq::<DeltaOpV>::empty());
    }
    let h = blake3_hash(out.as_slice());
    let mut same = true;
    let mut i: usize = 0;
    while i < 32
        invariant
            i <= 32,
            h@.len() == 32,
            delta.target_hash@.len() == 32,
            same == (forall|j: int| 0 <= j < i ==> h@[j] == delta.target_hash@[j]),
        decreases 32 - i,
    {
        if h[i] != delta.target_hash[i] {
            proof {
                assert(h@[i as int] != delta.target_hash@[i as int]);
            }
            same = false;
        }
        i = i + 1;
    }
    if !same {
        proof {
            assert(blake3_of(out@) != delta.target_hash@);
        }
        return Err(DecodeError::PatchCorrupt);
    }
    proof {
        assert(h@ =~= delta.target_hash@);
    }
    Ok(out)
}

} // verus!
