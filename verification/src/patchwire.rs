//! The patch wire format: `magic("DXP1") ‖ base_hash(32) ‖ target_hash(32)
//! ‖ op_count(u32) ‖ ops`, where each operation is a tag byte followed by
//! its record: a copy carries offset and length, an insert carries its
//! bytes length-prefixed, a replace carries the replaced range and the new
//! bytes.

use vstd::prelude::*;

use vstd::slice::slice_subrange;
use vstd::slice::slice_to_vec;

use crate::bytes::le32_bytes;
use crate::bytes::lemma_le32_roundtrip;
use crate::bytes::push_u32_le;
use crate::bytes::read_u32_le;
use crate::delta::DeltaOp;
use crate::delta::DeltaOpV;
use crate::delta::DeltaPatch;
use crate::delta::delta_ops_view;
use crate::opwire::rd32;
use crate::wire::DecodeError;

verus! {

/// The four magic bytes "DXP1".
pub open spec fn patch_magic() -> Seq<u8> {
    seq![0x44u8, 0x58u8, 0x50u8, 0x31u8]
}

/// The wire bytes of one delta operation.
pub open spec fn ser_delta_op(op: DeltaOpV) -> Seq<u8> {
    match op {
        DeltaOpV::Copy { offset, length } => seq![1u8] + le32_bytes(offset) + le32_bytes(length),
        DeltaOpV::Insert { data } => seq![2u8] + le32_bytes(data.len() as u32) + data,
        DeltaOpV::Replace { offset, length, data } => seq![3u8] + le32_bytes(offset) + le32_bytes(
            length,
        ) + le32_bytes(data.len() as u32) + data,
    }
}

/// The wire bytes of a delta operation list, in order.
pub open spec fn ser_delta_ops(ops: Seq<DeltaOpV>) -> Seq<u8>
    decreases ops.len(),
{
    if ops.len() == 0 {
        Seq::empty()
    } else {
        ser_delta_op(ops[0]) + ser_delta_ops(ops.skip(1))
    }
}

/// The wire bytes of a whole patch.
pub open spec fn ser_patch(base_hash: Seq<u8>, target_hash: Seq<u8>, ops: Seq<DeltaOpV>) -> Seq<
    u8,
> {
    patch_magic() + base_hash + target_hash + le32_bytes(ops.len() as u32) + ser_delta_ops(ops)
}

/// Whether every inserted byte string fits its 32-bit length prefix.
pub open spec fn delta_ops_fit(ops: Seq<DeltaOpV>) -> bool {
    forall|k: int|
        0 <= k < ops.len() ==> match #[trigger] ops[k] {
            DeltaOpV::Insert { data } => data.len() <= 0xFFFFFFFF,
            DeltaOpV::Replace { offset, length, data } => data.len() <= 0xFFFFFFFF,
            _ => true,
        }
}

/// Parse one delta operation at offset `i`: `BufferTooSmall` on
/// truncation, `InvalidOpcode` on an unknown tag.
pub open spec fn parse_delta_op(b: Seq<u8>, i: int) -> Result<(DeltaOpV, int), DecodeError> {
    if i + 1 > b.len() {
        Err(DecodeError::BufferTooSmall)
    } else if b[i] == 1 {
        if i + 9 > b.len() {
            Err(DecodeError::BufferTooSmall)
        } else {
            Ok((DeltaOpV::Copy { offset: rd32(b, i + 1), length: rd32(b, i + 5) }, i + 9))
        }
    } else if b[i] == 2 {
        if i + 5 > b.len() {
            Err(DecodeError::BufferTooSmall)
        } else {
            let dl = rd32(b, i + 1) as int;
            if i + 5 + dl > b.len() {
                Err(DecodeError::BufferTooSmall)
            } else {
                Ok((DeltaOpV::Insert { data: b.subrange(i + 5, i + 5 + dl) }, i + 5 + dl))
            }
        }
    } else if b[i] == 3 {
        if i + 13 > b.len() {
            Err(DecodeError::BufferTooSmall)
        } else {
            let dl = rd32(b, i + 9) as int;
            if i + 13 + dl > b.len() {
                Err(DecodeError::BufferTooSmall)
            } else {
                Ok(
                    (
                        DeltaOpV::Replace {
                            offset: rd32(b, i + 1),
                            length: rd32(b, i + 5),
                            data: b.subrange(i + 13, i + 13 + dl),
                        },
                        i + 13 + dl,
                    ),
                )
            }
        }
    } else {
        Err(DecodeError::InvalidOpcode)
    }
}

/// Parse `n` delta operations at offset `i`.
pub open spec fn parse_delta_ops(b: Seq<u8>, i: int, n: int) -> Result<
    (Seq<DeltaOpV>, int),
    DecodeError,
>
    decreases n,
{
    if n <= 0 {
        Ok((Seq::empty(), i))
    } else {
        match parse_delta_op(b, i) {
            Err(e) => Err(e),
            Ok((op, j)) => match parse_delta_ops(b, j, n - 1) {
                Err(e) => Err(e),
                Ok((rest, k)) => Ok((seq![op] + rest, k)),
            },
        }
    }
}

/// What parsing a whole patch wire image yields: the two hashes and the
/// operations. The image must be tiled exactly: trailing bytes are
/// `BufferTooSmall`.
pub open spec fn parse_patch(b: Seq<u8>) -> Result<
    (Seq<u8>, Seq<u8>, Seq<DeltaOpV>),
    DecodeError,
> {
    if b.len() < 72 {
        Err(DecodeError::BufferTooSmall)
    } else if b.subrange(0, 4) != patch_magic() {
        Err(DecodeError::InvalidMagic)
    } else {
        let base_hash = b.subrange(4, 36);
        let target_hash = b.subrange(36, 68);
        let count = rd32(b, 68) as int;
        match parse_delta_ops(b, 72, count) {
            Err(e) => Err(e),
            Ok((ops, j)) => if j != b.len() {
                Err(DecodeError::BufferTooSmall)
            } else {
                Ok((base_hash, target_hash, ops))
            },
        }
    }
}

/// Serialize a patch onto the wire.
pub fn write_patch(patch: &DeltaPatch) -> (r: Vec<u8>)
    requires
        delta_ops_fit(delta_ops_view(patch.operations@)),
        patch.operations@.len() <= 0xFFFFFFFF,
    ensures
        r@ == ser_patch(
            patch.base_hash@,
            patch.target_hash@,
            delta_ops_view(patch.operations@),
        ),
{
    let ghost dops = delta_ops_view(patch.operations@);
    let mut out: Vec<u8> = Vec::new();
    out.push(0x44);
    out.push(0x58);
    out.push(0x50);
    out.push(0x31);
    proof {
        assert(out@ =~= patch_magic());
    }
    let mut i: usize = 0;
    while i < 32
        invariant
            i <= 32,
            patch.base_hash@.len() == 32,
            out@ == patch_magic() + patch.base_hash@.subrange(0, i as int),
        decreases 32 - i,
    {
        out.push(patch.base_hash[i]);
        proof {
            assert(patch.base_hash@.subrange(0, i + 1) =~= patch.base_hash@.subrange(
                0,
                i as int,
            ).push(patch.base_hash@[i as int]));
        }
        i = i + 1;
    }
    let mut i2: usize = 0;
    while i2 < 32
        invariant
            i2 <= 32,
            patch.base_hash@.len() == 32,
            patch.target_hash@.len() == 32,
            out@ == patch_magic() + patch.base_hash@.subrange(0, 32) + patch.target_hash@.subrange(
                0,
                i2 as int,
            ),
        decreases 32 - i2,
    {
        out.push(patch.target_hash[i2]);
        proof {
            assert(patch.target_hash@.subrange(0, i2 + 1) =~= patch.target_hash@.subrange(
                0,
                i2 as int,
            ).push(patch.target_hash@[i2 as int]));
        }
        i2 = i2 + 1;
    }
    proof {
        assert(patch.base_hash@.subrange(0, 32) =~= patch.base_hash@);
        assert(patch.target_hash@.subrange(0, 32) =~= patch.target_hash@);
    }
    push_u32_le(&mut out, patch.operations.len() as u32);
    let ghost head = out@;
    let mut k: usize = 0;
    while k < patch.operations.len()
        invariant
            k <= patch.operations@.len(),
            dops == delta_ops_view(patch.operations@),
            delta_ops_fit(dops),
            out@ == head + ser_delta_ops(dops.take(k as int)),
        decreases patch.operations@.len() - k,
    {
        proof {
            assert(dops[k as int] == patch.operations@[k as int]@);
        }
        write_delta_op(&mut out, &patch.operations[k]);
        proof {
            lemma_ser_delta_ops_snoc(dops.take(k as int), dops[k as int]);
            assert(dops.take(k + 1) =~= dops.take(k as int).push(dops[k as int]));
        }
        k = k + 1;
    }
    proof {
        assert(dops.take(dops.len() as int) =~= dops);
        assert(out@ =~= ser_patch(patch.base_hash@, patch.target_hash@, dops));
    }
    out
}

/// Append the wire bytes of one delta operation.
fn write_delta_op(out: &mut Vec<u8>, op: &DeltaOp)
    requires
        match op@ {
            DeltaOpV::Insert { data } => data.len() <= 0xFFFFFFFF,
            DeltaOpV::Replace { offset, length, data } => data.len() <= 0xFFFFFFFF,
            _ => true,
        },
    ensures
        final(out)@ == old(out)@ + ser_delta_op(op@),
{
    match op {
        DeltaOp::Copy { offset, length } => {
            out.push(1u8);
            push_u32_le(out, *offset);
            push_u32_le(out, *length);
        },
        DeltaOp::Insert { data } => {
            out.push(2u8);
            push_u32_le(out, data.len() as u32);
            let mut piece = slice_to_vec(data.as_slice());
            out.append(&mut piece);
        },
        DeltaOp::Replace { offset, length, data } => {
            out.push(3u8);
            push_u32_le(out, *offset);
            push_u32_le(out, *length);
            push_u32_le(out, data.len() as u32);
            let mut piece = slice_to_vec(data.as_slice());
            out.append(&mut piece);
        },
    }
    assert(final(out)@ =~= old(out)@ + ser_delta_op(op@));
}

pub proof fn lemma_ser_delta_ops_snoc(ops: Seq<DeltaOpV>, op: DeltaOpV)
    ensures
        ser_delta_ops(ops.push(op)) == ser_delta_ops(ops) + ser_delta_op(op),
    decreases ops.len(),
{
    if ops.len() == 0 {
        assert(ops.push(op).skip(1) =~= Seq::<DeltaOpV>::empty());
        assert(ser_delta_ops(Seq::<DeltaOpV>::empty()) == Seq::<u8>::empty());
        assert(ops.push(op)[0] == op);
        assert(ser_delta_ops(ops.push(op)) =~= ser_delta_ops(ops) + ser_delta_op(op));
    } else {
        assert(ops.push(op).skip(1) =~= ops.skip(1).push(op));
        assert(ops.push(op)[0] == ops[0]);
        lemma_ser_delta_ops_snoc(ops.skip(1), op);
        assert(ser_delta_ops(ops.push(op)) =~= ser_delta_ops(ops) + ser_delta_op(op));
    }
}

/// Read one delta operation at offset `i`, as `parse_delta_op` describes.
fn read_delta_op(b: &[u8], i: usize) -> (r: Result<(DeltaOp, usize), DecodeError>)
    requires
        i <= b@.len(),
    ensures
        r matches Ok(p) ==> parse_delta_op(b@, i as int) == Ok::<(DeltaOpV, int), DecodeError>(
            (p.0@, p.1 as int),
        ) && i < p.1 <= b@.len(),
        r matches Err(e) ==> parse_delta_op(b@, i as int) == Err::<(DeltaOpV, int), DecodeError>(
            e,
        ),
{
    if b.len() - i < 1 {
        return Err(DecodeError::BufferTooSmall);
    }
    let tag = b[i];
    if tag == 1 {
        if b.len() - i < 9 {
            return Err(DecodeError::BufferTooSmall);
        }
        Ok((DeltaOp::Copy { offset: read_u32_le(b, i + 1), length: read_u32_le(b, i + 5) }, i + 9))
    } else if tag == 2 {
        if b.len() - i < 5 {
            return Err(DecodeError::BufferTooSmall);
        }
        let dl = read_u32_le(b, i + 1) as usize;
        if b.len() - (i + 5) < dl {
            return Err(DecodeError::BufferTooSmall);
        }
        let data = slice_to_vec(slice_subrange(b, i + 5, i + 5 + dl));
        Ok((DeltaOp::Insert { data }, i + 5 + dl))
    } else if tag == 3 {
        if b.len() - i < 13 {
            return Err(DecodeError::BufferTooSmall);
        }
        let dl = read_u32_le(b, i + 9) as usize;
        if b.len() - (i + 13) < dl {
            return Err(DecodeError::BufferTooSmall);
        }
        let data = slice_to_vec(slice_subrange(b, i + 13, i + 13 + dl));
        Ok(
            (
                DeltaOp::Replace {
                    offset: read_u32_le(b, i + 1),
                    length: read_u32_le(b, i + 5),
                    data,
                },
                i + 13 + dl,
            ),
        )
    } else {
        Err(DecodeError::InvalidOpcode)
    }
}

/// Lift a delta-op parse over those already taken off the front.
pub open spec fn compose_delta(
    pre: Seq<DeltaOpV>,
    r: Result<(Seq<DeltaOpV>, int), DecodeError>,
) -> Result<(Seq<DeltaOpV>, int), DecodeError> {
    match r {
        Ok((rest, j)) => Ok((pre + rest, j)),
        Err(e) => Err(e),
    }
}

/// Read a whole patch off the wire, as `parse_patch` describes.
pub fn read_patch(b: &[u8]) -> (r: Result<DeltaPatch, DecodeError>)
    ensures
        r matches Ok(p) ==> parse_patch(b@) == Ok::<(Seq<u8>, Seq<u8>, Seq<DeltaOpV>), DecodeError>(
            (p.base_hash@, p.target_hash@, delta_ops_view(p.operations@)),
        ),
        r matches Err(e) ==> parse_patch(b@) == Err::<
            (Seq<u8>, Seq<u8>, Seq<DeltaOpV>),
            DecodeError,
        >(e),
{
    if b.len() < 72 {
        return Err(DecodeError::BufferTooSmall);
    }
    if !(b[0] == 0x44 && b[1] == 0x58 && b[2] == 0x50 && b[3] == 0x31) {
        proof {
            assert(b@.subrange(0, 4)[0] == b@[0] && b@.subrange(0, 4)[1] == b@[1] && b@.subrange(
                0,
                4,
            )[2] == b@[2] && b@.subrange(0, 4)[3] == b@[3]);
        }
        return Err(DecodeError::InvalidMagic);
    }
    proof {
        assert(b@.subrange(0, 4) =~= patch_magic());
    }
    let base_hash = crate::delta::to_hash32_slice(b, 4);
    let target_hash = crate::delta::to_hash32_slice(b, 36);
    let count = read_u32_le(b, 68);
    let mut operations: Vec<DeltaOp> = Vec::new();
    let mut cur: usize = 72;
    let mut k: u32 = 0;
    while k < count
        invariant
            72 <= cur <= b@.len(),
            k <= count,
            b@.len() >= 72,
            b@.subrange(0, 4) == patch_magic(),
            count == rd32(b@, 68),
            parse_delta_ops(b@, 72, count as int) == compose_delta(
                delta_ops_view(operations@),
                parse_delta_ops(b@, cur as int, count - k),
            ),
        decreases count - k,
    {
        match read_delta_op(b, cur) {
            Err(e) => {
                return Err(e);
            },
            Ok((op, j)) => {
                proof {
                    let pre = delta_ops_view(operations@);
                    let rest = parse_delta_ops(b@, j as int, count - k - 1);
                    assert(parse_delta_ops(b@, cur as int, count - k) == compose_delta(
                        seq![op@],
                        rest,
                    ));
                    match rest {
                        Ok(pr) => {
                            assert(pre + (seq![op@] + pr.0) =~= pre.push(op@) + pr.0);
                        },
                        Err(_) => {
                        },
                    }
                    assert(delta_ops_view(operations@.push(op)) =~= pre.push(op@));
                }
                operations.push(op);
                cur = j;
                k = k + 1;
            },
        }
    }
    proof {
        assert(delta_ops_view(operations@) + Seq::<DeltaOpV>::empty() =~= delta_ops_view(
            operations@,
        ));
    }
    if cur != b.len() {
        return Err(DecodeError::BufferTooSmall);
    }
    proof {
        assert(base_hash@ =~= b@.subrange(4, 36));
        assert(target_hash@ =~= b@.subrange(36, 68));
    }
    Ok(DeltaPatch { base_hash, target_hash, operations })
}

/// Parsing is the inverse of serialization for one delta operation.
pub proof fn lemma_parse_ser_delta_op(b: Seq<u8>, i: int, op: DeltaOpV)
    requires
        0 <= i,
        (match op {
            DeltaOpV::Insert { data } => data.len() <= 0xFFFFFFFF,
            DeltaOpV::Replace { offset, length, data } => data.len() <= 0xFFFFFFFF,
            _ => true,
        }),
        i + ser_delta_op(op).len() <= b.len(),
        b.subrange(i, i + ser_delta_op(op).len() as int) == ser_delta_op(op),
    ensures
        parse_delta_op(b, i) == Ok::<(DeltaOpV, int), DecodeError>(
            (op, i + ser_delta_op(op).len()),
        ),
{
    let s = ser_delta_op(op);
    assert forall|k: int| 0 <= k < s.len() implies b[i + k] == s[k] by {
        assert(b.subrange(i, i + s.len() as int)[k] == b[i + k]);
    }
    assert(b.subrange(i, i + s.len() as int)[0] == b[i]);
    assert(b[i] == s[0]);
    match op {
        DeltaOpV::Copy { offset, length } => {
            let s1 = le32_bytes(offset);
            let s2 = le32_bytes(length);
            assert(s == seq![1u8] + (s1 + s2));
            assert(s[1] == s1[0] && s[2] == s1[1] && s[3] == s1[2] && s[4] == s1[3]);
            assert(s[5] == s2[0] && s[6] == s2[1] && s[7] == s2[2] && s[8] == s2[3]);
            lemma_le32_roundtrip(offset);
            lemma_le32_roundtrip(length);
        },
        DeltaOpV::Insert { data } => {
            let s1 = le32_bytes(data.len() as u32);
            assert(s == seq![2u8] + (s1 + data));
            assert(s[1] == s1[0] && s[2] == s1[1] && s[3] == s1[2] && s[4] == s1[3]);
            lemma_le32_roundtrip(data.len() as u32);
            assert(b.subrange(i + 5, i + 5 + data.len() as int) =~= data) by {
                assert forall|k2: int| 0 <= k2 < data.len() implies #[trigger] b.subrange(
                    i + 5,
                    i + 5 + data.len() as int,
                )[k2] == data[k2] by {
                    assert(b[i + (5 + k2)] == s[5 + k2]);
                    assert(s[5 + k2] == data[k2]);
                }
            }
        },
        DeltaOpV::Replace { offset, length, data } => {
            let s1 = le32_bytes(offset);
            let s2 = le32_bytes(length);
            let s3 = le32_bytes(data.len() as u32);
            assert(s == seq![3u8] + (s1 + s2 + s3 + data));
            assert(s[1] == s1[0] && s[2] == s1[1] && s[3] == s1[2] && s[4] == s1[3]);
            assert(s[5] == s2[0] && s[6] == s2[1] && s[7] == s2[2] && s[8] == s2[3]);
            assert(s[9] == s3[0] && s[10] == s3[1] && s[11] == s3[2] && s[12] == s3[3]);
            lemma_le32_roundtrip(offset);
            lemma_le32_roundtrip(length);
            lemma_le32_roundtrip(data.len() as u32);
            assert(b.subrange(i + 13, i + 13 + data.len() as int) =~= data) by {
                assert forall|k2: int| 0 <= k2 < data.len() implies #[trigger] b.subrange(
                    i + 13,
                    i + 13 + data.len() as int,
                )[k2] == data[k2] by {
                    assert(b[i + (13 + k2)] == s[13 + k2]);
                    assert(s[13 + k2] == data[k2]);
                }
            }
        },
    }
}

/// Parsing is the inverse of serialization for a delta operation list.
pub proof fn lemma_parse_ser_delta_ops(b: Seq<u8>, i: int, ops: Seq<DeltaOpV>)
    requires
        0 <= i,
        delta_ops_fit(ops),
        i + ser_delta_ops(ops).len() <= b.len(),
        b.subrange(i, i + ser_delta_ops(ops).len() as int) == ser_delta_ops(ops),
    ensures
        parse_delta_ops(b, i, ops.len() as int) == Ok::<(Seq<DeltaOpV>, int), DecodeError>(
            (ops, i + ser_delta_ops(ops).len()),
        ),
    decreases ops.len(),
{
    if ops.len() == 0 {
        assert(ops =~= Seq::<DeltaOpV>::empty());
    } else {
        let s0 = ser_delta_op(ops[0]);
        let srest = ser_delta_ops(ops.skip(1));
        assert(ser_delta_ops(ops) == s0 + srest);
        assert(b.subrange(i, i + s0.len() as int) =~= s0) by {
            assert forall|k: int| 0 <= k < s0.len() implies b[i + k] == s0[k] by {
                assert(b.subrange(i, i + ser_delta_ops(ops).len() as int)[k] == b[i + k]);
                assert((s0 + srest)[k] == s0[k]);
            }
        }
        lemma_parse_ser_delta_op(b, i, ops[0]);
        let j = i + s0.len();
        assert(b.subrange(j, j + srest.len() as int) =~= srest) by {
            assert forall|k: int| 0 <= k < srest.len() implies b[j + k] == srest[k] by {
                assert(b.subrange(i, i + ser_delta_ops(ops).len() as int)[s0.len() + k] == b[j
                    + k]);
                assert((s0 + srest)[s0.len() + k] == srest[k]);
            }
        }
        assert(delta_ops_fit(ops.skip(1))) by {
            assert(forall|k: int| 0 <= k < ops.skip(1).len() ==> ops.skip(1)[k] == ops[k + 1]);
        }
        lemma_parse_ser_delta_ops(b, j, ops.skip(1));
        assert(parse_delta_ops(b, j, ops.len() as int - 1) == Ok::<
            (Seq<DeltaOpV>, int),
            DecodeError,
        >((ops.skip(1), j + srest.len())));
        assert(seq![ops[0]] + ops.skip(1) =~= ops);
    }
}

/// A serialized patch parses back to the same hashes and operations.
pub proof fn lemma_parse_ser_patch(base_hash: Seq<u8>, target_hash: Seq<u8>, ops: Seq<DeltaOpV>)
    requires
        base_hash.len() == 32,
        target_hash.len() == 32,
        delta_ops_fit(ops),
        ops.len() <= 0xFFFFFFFF,
    ensures
        parse_patch(ser_patch(base_hash, target_hash, ops)) == Ok::<
            (Seq<u8>, Seq<u8>, Seq<DeltaOpV>),
            DecodeError,
        >((base_hash, target_hash, ops)),
{
    let b = ser_patch(base_hash, target_hash, ops);
    let sops = ser_delta_ops(ops);
    assert(b.len() == 72 + sops.len());
    assert(b.subrange(0, 4) =~= patch_magic());
    assert(b.subrange(4, 36) =~= base_hash);
    assert(b.subrange(36, 68) =~= target_hash);
    assert(rd32(b, 68) == ops.len() as u32) by {
        let lc = le32_bytes(ops.len() as u32);
        assert(b[68] == lc[0] && b[69] == lc[1] && b[70] == lc[2] && b[71] == lc[3]);
        lemma_le32_roundtrip(ops.len() as u32);
    }
    assert(b.subrange(72, 72 + sops.len() as int) =~= sops);
    lemma_parse_ser_delta_ops(b, 72, ops);
}

} // verus!
