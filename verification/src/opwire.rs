//! Serialization of the opcode stream: one tag byte per operation followed
//! by its fixed payload record, all integers little-endian.
//!
//! `ser_op` / `ser_ops` are the single spec-level definition of the layout;
//! the encoder is proved to emit exactly these bytes and the parser is proved
//! to be their inverse.

use vstd::prelude::*;

use crate::bytes::le16_bytes;
use crate::bytes::le32_bytes;
use crate::bytes::le64_bytes;
use crate::bytes::lemma_le16_roundtrip;
use crate::bytes::lemma_le32_roundtrip;
use crate::bytes::lemma_le64_roundtrip;
use crate::bytes::push_u16_le;
use crate::bytes::push_u32_le;
use crate::bytes::push_u64_le;
use crate::bytes::read_u16_le;
use crate::bytes::read_u32_le;
use crate::bytes::read_u64_le;
use crate::bytes::u16_of_le;
use crate::bytes::u32_of_le;
use crate::bytes::u64_of_le;
use crate::wire::AppendChild;
use crate::wire::AttachEvent;
use crate::wire::BatchCommit;
use crate::wire::BatchStart;
use crate::wire::DecodeError;
use crate::wire::Instantiate;
use crate::wire::OpcodeV1;
use crate::wire::Operation;
use crate::wire::PatchAttr;
use crate::wire::PatchClassToggle;
use crate::wire::PatchText;
use crate::wire::PropertyValue;
use crate::wire::RemoveNode;
use crate::wire::SetProperty;
use crate::wire::TemplateRef;
use crate::wire::opcode_of;
use crate::wire::opcode_of_tag;
use crate::wire::opcode_tag;

verus! {

/// The byte a boolean takes on the wire.
pub open spec fn bool_byte(b: bool) -> u8 {
    if b {
        1u8
    } else {
        0u8
    }
}

/// The wire bytes of a property value: a tag byte, then the payload.
pub open spec fn ser_prop(v: PropertyValue) -> Seq<u8> {
    match v {
        PropertyValue::StringId(s) => seq![0u8] + le32_bytes(s),
        PropertyValue::NumberBits(n) => seq![1u8] + le64_bytes(n),
        PropertyValue::Boolean(b) => seq![2u8, bool_byte(b)],
        PropertyValue::Null => seq![3u8],
    }
}

/// The wire bytes of one operation: its tag byte, then its payload record.
pub open spec fn ser_op(op: Operation) -> Seq<u8> {
    seq![opcode_tag(opcode_of(op))] + match op {
        Operation::TemplateDef(t) => le16_bytes(t.template_id),
        Operation::Instantiate(p) => le32_bytes(p.instance_id) + le16_bytes(p.template_id)
            + le32_bytes(p.parent_id),
        Operation::PatchText(p) => le32_bytes(p.instance_id) + le16_bytes(p.slot_id) + le32_bytes(
            p.string_id,
        ),
        Operation::PatchAttr(p) => le32_bytes(p.instance_id) + le16_bytes(p.slot_id) + le32_bytes(
            p.attr_name_id,
        ) + le32_bytes(p.value_id),
        Operation::PatchClassToggle(p) => le32_bytes(p.instance_id) + le32_bytes(p.class_name_id)
            + seq![bool_byte(p.enabled)],
        Operation::AttachEvent(p) => le32_bytes(p.instance_id) + le32_bytes(p.event_type_id)
            + le32_bytes(p.handler_id),
        Operation::RemoveNode(p) => le32_bytes(p.instance_id),
        Operation::BatchStart(p) => le32_bytes(p.batch_id),
        Operation::BatchCommit(p) => le32_bytes(p.batch_id),
        Operation::SetProperty(p) => le32_bytes(p.instance_id) + le32_bytes(p.prop_name_id)
            + ser_prop(p.value),
        Operation::AppendChild(p) => le32_bytes(p.parent_id) + le32_bytes(p.child_id),
    }
}

/// The wire bytes of a whole operation list, in textual order.
pub open spec fn ser_ops(ops: Seq<Operation>) -> Seq<u8>
    decreases ops.len(),
{
    if ops.len() == 0 {
        Seq::empty()
    } else {
        ser_op(ops[0]) + ser_ops(ops.skip(1))
    }
}

/// The `u16` at offset `i` of `b`.
pub open spec fn rd16(b: Seq<u8>, i: int) -> u16 {
    u16_of_le(b[i], b[i + 1])
}

/// The `u32` at offset `i` of `b`.
pub open spec fn rd32(b: Seq<u8>, i: int) -> u32 {
    u32_of_le(b[i], b[i + 1], b[i + 2], b[i + 3])
}

/// Parse one operation at offset `i`. Errors: `BufferTooSmall` when the tag
/// or its payload is truncated, `InvalidOpcode` on an unknown opcode tag, an
/// unknown property tag, or a boolean byte other than 0 or 1.
pub open spec fn parse_op(b: Seq<u8>, i: int) -> Result<(Operation, int), DecodeError> {
    if i + 1 > b.len() {
        Err(DecodeError::BufferTooSmall)
    } else {
        match opcode_of_tag(b[i]) {
            None => Err(DecodeError::InvalidOpcode),
            Some(OpcodeV1::TemplateDef) => if i + 3 > b.len() {
                Err(DecodeError::BufferTooSmall)
            } else {
                Ok((Operation::TemplateDef(TemplateRef { template_id: rd16(b, i + 1) }), i + 3))
            },
            Some(OpcodeV1::Instantiate) => if i + 11 > b.len() {
                Err(DecodeError::BufferTooSmall)
            } else {
                Ok(
                    (
                        Operation::Instantiate(
                            Instantiate {
                                instance_id: rd32(b, i + 1),
                                template_id: rd16(b, i + 5),
                                parent_id: rd32(b, i + 7),
                            },
                        ),
                        i + 11,
                    ),
                )
            },
            Some(OpcodeV1::PatchText) => if i + 11 > b.len() {
                Err(DecodeError::BufferTooSmall)
            } else {
                Ok(
                    (
                        Operation::PatchText(
                            PatchText {
                                instance_id: rd32(b, i + 1),
                                slot_id: rd16(b, i + 5),
                                string_id: rd32(b, i + 7),
                            },
                        ),
                        i + 11,
                    ),
                )
            },
            Some(OpcodeV1::PatchAttr) => if i + 15 > b.len() {
                Err(DecodeError::BufferTooSmall)
            } else {
                Ok(
                    (
                        Operation::PatchAttr(
                            PatchAttr {
                                instance_id: rd32(b, i + 1),
                                slot_id: rd16(b, i + 5),
                                attr_name_id: rd32(b, i + 7),
                                value_id: rd32(b, i + 11),
                            },
                        ),
                        i + 15,
                    ),
                )
            },
            Some(OpcodeV1::PatchClassToggle) => if i + 10 > b.len() {
                Err(DecodeError::BufferTooSmall)
            } else if b[i + 9] != 0 && b[i + 9] != 1 {
                Err(DecodeError::InvalidOpcode)
            } else {
                Ok(
                    (
                        Operation::PatchClassToggle(
                            PatchClassToggle {
                                instance_id: rd32(b, i + 1),
                                class_name_id: rd32(b, i + 5),
                                enabled: b[i + 9] == 1,
                            },
                        ),
                        i + 10,
                    ),
                )
            },
            Some(OpcodeV1::AttachEvent) => if i + 13 > b.len() {
                Err(DecodeError::BufferTooSmall)
            } else {
                Ok(
                    (
                        Operation::AttachEvent(
                            AttachEvent {
                                instance_id: rd32(b, i + 1),
                                event_type_id: rd32(b, i + 5),
                                handler_id: rd32(b, i + 9),
                            },
                        ),
                        i + 13,
                    ),
                )
            },
            Some(OpcodeV1::RemoveNode) => if i + 5 > b.len() {
                Err(DecodeError::BufferTooSmall)
            } else {
                Ok((Operation::RemoveNode(RemoveNode { instance_id: rd32(b, i + 1) }), i + 5))
            },
            Some(OpcodeV1::BatchStart) => if i + 5 > b.len() {
                Err(DecodeError::BufferTooSmall)
            } else {
                Ok((Operation::BatchStart(BatchStart { batch_id: rd32(b, i + 1) }), i + 5))
            },
            Some(OpcodeV1::BatchCommit) => if i + 5 > b.len() {
                Err(DecodeError::BufferTooSmall)
            } else {
                Ok((Operation::BatchCommit(BatchCommit { batch_id: rd32(b, i + 1) }), i + 5))
            },
            Some(OpcodeV1::SetProperty) => if i + 10 > b.len() {
                Err(DecodeError::BufferTooSmall)
            } else {
                match parse_prop(b, i + 9) {
                    Err(e) => Err(e),
                    Ok((v, j)) => Ok(
                        (
                            Operation::SetProperty(
                                SetProperty {
                                    instance_id: rd32(b, i + 1),
                                    prop_name_id: rd32(b, i + 5),
                                    value: v,
                                },
                            ),
                            j,
                        ),
                    ),
                }
            },
            Some(OpcodeV1::AppendChild) => if i + 9 > b.len() {
                Err(DecodeError::BufferTooSmall)
            } else {
                Ok(
                    (
                        Operation::AppendChild(
                            AppendChild { parent_id: rd32(b, i + 1), child_id: rd32(b, i + 5) },
                        ),
                        i + 9,
                    ),
                )
            },
        }
    }
}

/// Parse a property value at offset `i`.
pub open spec fn parse_prop(b: Seq<u8>, i: int) -> Result<(PropertyValue, int), DecodeError> {
    if i + 1 > b.len() {
        Err(DecodeError::BufferTooSmall)
    } else if b[i] == 0 {
        if i + 5 > b.len() {
            Err(DecodeError::BufferTooSmall)
        } else {
            Ok((PropertyValue::StringId(rd32(b, i + 1)), i + 5))
        }
    } else if b[i] == 1 {
        if i + 9 > b.len() {
            Err(DecodeError::BufferTooSmall)
        } else {
            Ok((PropertyValue::NumberBits(u64_of_le(b.subrange(i + 1, i + 9))), i + 9))
        }
    } else if b[i] == 2 {
        if i + 2 > b.len() {
            Err(DecodeError::BufferTooSmall)
        } else if b[i + 1] != 0 && b[i + 1] != 1 {
            Err(DecodeError::InvalidOpcode)
        } else {
            Ok((PropertyValue::Boolean(b[i + 1] == 1), i + 2))
        }
    } else if b[i] == 3 {
        Ok((PropertyValue::Null, i + 1))
    } else {
        Err(DecodeError::InvalidOpcode)
    }
}

/// Parse `n` operations starting at offset `i`.
pub open spec fn parse_ops(b: Seq<u8>, i: int, n: int) -> Result<
    (Seq<Operation>, int),
    DecodeError,
>
    decreases n,
{
    if n <= 0 {
        Ok((Seq::empty(), i))
    } else {
        match parse_op(b, i) {
            Err(e) => Err(e),
            Ok((op, j)) => match parse_ops(b, j, n - 1) {
                Err(e) => Err(e),
                Ok((rest, k)) => Ok((seq![op] + rest, k)),
            },
        }
    }
}

/// Append the wire bytes of one operation.
pub fn write_op(out: &mut Vec<u8>, op: &Operation)
    ensures
        final(out)@ == old(out)@ + ser_op(*op),
{
    let tag = op.opcode().to_u8();
    out.push(tag);
    match op {
        Operation::TemplateDef(t) => {
            push_u16_le(out, t.template_id);
        },
        Operation::Instantiate(p) => {
            push_u32_le(out, p.instance_id);
            push_u16_le(out, p.template_id);
            push_u32_le(out, p.parent_id);
        },
        Operation::PatchText(p) => {
            push_u32_le(out, p.instance_id);
            push_u16_le(out, p.slot_id);
            push_u32_le(out, p.string_id);
        },
        Operation::PatchAttr(p) => {
            push_u32_le(out, p.instance_id);
            push_u16_le(out, p.slot_id);
            push_u32_le(out, p.attr_name_id);
            push_u32_le(out, p.value_id);
        },
        Operation::PatchClassToggle(p) => {
            push_u32_le(out, p.instance_id);
            push_u32_le(out, p.class_name_id);
            out.push(if p.enabled { 1u8 } else { 0u8 });
        },
        Operation::AttachEvent(p) => {
            push_u32_le(out, p.instance_id);
            push_u32_le(out, p.event_type_id);
            push_u32_le(out, p.handler_id);
        },
        Operation::RemoveNode(p) => {
            push_u32_le(out, p.instance_id);
        },
        Operation::BatchStart(p) => {
            push_u32_le(out, p.batch_id);
        },
        Operation::BatchCommit(p) => {
            push_u32_le(out, p.batch_id);
        },
        Operation::SetProperty(p) => {
            push_u32_le(out, p.instance_id);
            push_u32_le(out, p.prop_name_id);
            match &p.value {
                PropertyValue::StringId(s) => {
                    out.push(0u8);
                    push_u32_le(out, *s);
                },
                PropertyValue::NumberBits(n) => {
                    out.push(1u8);
                    push_u64_le(out, *n);
                },
                PropertyValue::Boolean(bv) => {
                    out.push(2u8);
                    out.push(if *bv { 1u8 } else { 0u8 });
                },
                PropertyValue::Null => {
                    out.push(3u8);
                },
            }
        },
        Operation::AppendChild(p) => {
            push_u32_le(out, p.parent_id);
            push_u32_le(out, p.child_id);
        },
    }
    assert(final(out)@ =~= old(out)@ + ser_op(*op));
}

/// Append the wire bytes of every operation, in order.
pub fn write_ops(out: &mut Vec<u8>, ops: &Vec<Operation>)
    ensures
        final(out)@ == old(out)@ + ser_ops(ops@),
{
    let mut k: usize = 0;
    while k < ops.len()
        invariant
            k <= ops@.len(),
            out@ == old(out)@ + ser_ops(ops@.take(k as int)),
        decreases ops@.len() - k,
    {
        write_op(out, &ops[k]);
        proof {
            lemma_ser_ops_snoc(ops@.take(k as int), ops@[k as int]);
            assert(ops@.take(k + 1) =~= ops@.take(k as int).push(ops@[k as int]));
        }
        k = k + 1;
    }
    proof {
        assert(ops@.take(ops@.len() as int) =~= ops@);
    }
}

/// Read one operation at offset `i`, as `parse_op` describes.
pub fn read_op(b: &[u8], i: usize) -> (r: Result<(Operation, usize), DecodeError>)
    requires
        i <= b@.len(),
    ensures
        r matches Ok(p) ==> parse_op(b@, i as int) == Ok::<(Operation, int), DecodeError>(
            (p.0, p.1 as int),
        ) && i < p.1 <= b@.len(),
        r matches Err(e) ==> parse_op(b@, i as int) == Err::<(Operation, int), DecodeError>(e),
{
    if b.len() - i < 1 {
        return Err(DecodeError::BufferTooSmall);
    }
    let tag = b[i];
    let op = match OpcodeV1::from_u8(tag) {
        None => {
            return Err(DecodeError::InvalidOpcode);
        },
        Some(o) => o,
    };
    match op {
        OpcodeV1::TemplateDef => {
            if b.len() - i < 3 {
                return Err(DecodeError::BufferTooSmall);
            }
            Ok((Operation::TemplateDef(TemplateRef { template_id: read_u16_le(b, i + 1) }), i + 3))
        },
        OpcodeV1::Instantiate => {
            if b.len() - i < 11 {
                return Err(DecodeError::BufferTooSmall);
            }
            Ok(
                (
                    Operation::Instantiate(
                        Instantiate {
                            instance_id: read_u32_le(b, i + 1),
                            template_id: read_u16_le(b, i + 5),
                            parent_id: read_u32_le(b, i + 7),
                        },
                    ),
                    i + 11,
                ),
            )
        },
        OpcodeV1::PatchText => {
            if b.len() - i < 11 {
                return Err(DecodeError::BufferTooSmall);
            }
            Ok(
                (
                    Operation::PatchText(
                        PatchText {
                            instance_id: read_u32_le(b, i + 1),
                            slot_id: read_u16_le(b, i + 5),
                            string_id: read_u32_le(b, i + 7),
                        },
                    ),
                    i + 11,
                ),
            )
        },
        OpcodeV1::PatchAttr => {
            if b.len() - i < 15 {
                return Err(DecodeError::BufferTooSmall);
            }
            Ok(
                (
                    Operation::PatchAttr(
                        PatchAttr {
                            instance_id: read_u32_le(b, i + 1),
                            slot_id: read_u16_le(b, i + 5),
                            attr_name_id: read_u32_le(b, i + 7),
                            value_id: read_u32_le(b, i + 11),
                        },
                    ),
                    i + 15,
                ),
            )
        },
        OpcodeV1::PatchClassToggle => {
            if b.len() - i < 10 {
                return Err(DecodeError::BufferTooSmall);
            }
            let flag = b[i + 9];
            if flag != 0 && flag != 1 {
                return Err(DecodeError::InvalidOpcode);
            }
            Ok(
                (
                    Operation::PatchClassToggle(
                        PatchClassToggle {
                            instance_id: read_u32_le(b, i + 1),
                            class_name_id: read_u32_le(b, i + 5),
                            enabled: flag == 1,
                        },
                    ),
                    i + 10,
                ),
            )
        },
        OpcodeV1::AttachEvent => {
            if b.len() - i < 13 {
                return Err(DecodeError::BufferTooSmall);
            }
            Ok(
                (
                    Operation::AttachEvent(
                        AttachEvent {
                            instance_id: read_u32_le(b, i + 1),
                            event_type_id: read_u32_le(b, i + 5),
                            handler_id: read_u32_le(b, i + 9),
                        },
                    ),
                    i + 13,
                ),
            )
        },
        OpcodeV1::RemoveNode => {
            if b.len() - i < 5 {
                return Err(DecodeError::BufferTooSmall);
            }
            Ok((Operation::RemoveNode(RemoveNode { instance_id: read_u32_le(b, i + 1) }), i + 5))
        },
        OpcodeV1::BatchStart => {
            if b.len() - i < 5 {
                return Err(DecodeError::BufferTooSmall);
            }
            Ok((Operation::BatchStart(BatchStart { batch_id: read_u32_le(b, i + 1) }), i + 5))
        },
        OpcodeV1::BatchCommit => {
            if b.len() - i < 5 {
                return Err(DecodeError::BufferTooSmall);
            }
            Ok((Operation::BatchCommit(BatchCommit { batch_id: read_u32_le(b, i + 1) }), i + 5))
        },
        OpcodeV1::SetProperty => {
            if b.len() - i < 10 {
                return Err(DecodeError::BufferTooSmall);
            }
            let instance_id = read_u32_le(b, i + 1);
            let prop_name_id = read_u32_le(b, i + 5);
            match read_prop(b, i + 9) {
                Err(e) => Err(e),
                Ok((v, j)) => Ok(
                    (
                        Operation::SetProperty(SetProperty { instance_id, prop_name_id, value: v }),
                        j,
                    ),
                ),
            }
        },
        OpcodeV1::AppendChild => {
            if b.len() - i < 9 {
                return Err(DecodeError::BufferTooSmall);
            }
            Ok(
                (
                    Operation::AppendChild(
                        AppendChild {
                            parent_id: read_u32_le(b, i + 1),
                            child_id: read_u32_le(b, i + 5),
                        },
                    ),
                    i + 9,
                ),
            )
        },
    }
}

/// Read a property value at offset `i`, as `parse_prop` describes.
fn read_prop(b: &[u8], i: usize) -> (r: Result<(PropertyValue, usize), DecodeError>)
    requires
        i <= b@.len(),
    ensures
        r matches Ok(p) ==> parse_prop(b@, i as int) == Ok::<(PropertyValue, int), DecodeError>(
            (p.0, p.1 as int),
        ) && i < p.1 <= b@.len(),
        r matches Err(e) ==> parse_prop(b@, i as int) == Err::<(PropertyValue, int), DecodeError>(
            e,
        ),
{
    if b.len() - i < 1 {
        return Err(DecodeError::BufferTooSmall);
    }
    let tag = b[i];
    if tag == 0 {
        if b.len() - i < 5 {
            return Err(DecodeError::BufferTooSmall);
        }
        Ok((PropertyValue::StringId(read_u32_le(b, i + 1)), i + 5))
    } else if tag == 1 {
        if b.len() - i < 9 {
            return Err(DecodeError::BufferTooSmall);
        }
        Ok((PropertyValue::NumberBits(read_u64_le(b, i + 1)), i + 9))
    } else if tag == 2 {
        if b.len() - i < 2 {
            return Err(DecodeError::BufferTooSmall);
        }
        let flag = b[i + 1];
        if flag != 0 && flag != 1 {
            return Err(DecodeError::InvalidOpcode);
        }
        Ok((PropertyValue::Boolean(flag == 1), i + 2))
    } else if tag == 3 {
        Ok((PropertyValue::Null, i + 1))
    } else {
        Err(DecodeError::InvalidOpcode)
    }
}

/// Lift a parse over the operations already taken off the front.
pub open spec fn compose_parse(pre: Seq<Operation>, r: Result<(Seq<Operation>, int), DecodeError>)
    -> Result<(Seq<Operation>, int), DecodeError> {
    match r {
        Ok((rest, j)) => Ok((pre + rest, j)),
        Err(e) => Err(e),
    }
}

/// Read `n` operations starting at offset `i`, as `parse_ops` describes.
pub fn read_ops(b: &[u8], i: usize, n: u32) -> (r: Result<(Vec<Operation>, usize), DecodeError>)
    requires
        i <= b@.len(),
    ensures
        r matches Ok(p) ==> parse_ops(b@, i as int, n as int) == Ok::<
            (Seq<Operation>, int),
            DecodeError,
        >((p.0@, p.1 as int)) && i <= p.1 <= b@.len(),
        r matches Err(e) ==> parse_ops(b@, i as int, n as int) == Err::<
            (Seq<Operation>, int),
            DecodeError,
        >(e),
{
    let mut acc: Vec<Operation> = Vec::new();
    let mut cur: usize = i;
    let mut k: u32 = 0;
    while k < n
        invariant
            i <= cur <= b@.len(),
            k <= n,
            parse_ops(b@, i as int, n as int) == compose_parse(
                acc@,
                parse_ops(b@, cur as int, n - k),
            ),
        decreases n - k,
    {
        match read_op(b, cur) {
            Err(e) => {
                return Err(e);
            },
            Ok((op, j)) => {
                proof {
                    let rest = parse_ops(b@, j as int, n - k - 1);
                    assert(parse_ops(b@, cur as int, n - k) == compose_parse(seq![op], rest));
                    match rest {
                        Ok(pr) => {
                            assert(acc@ + (seq![op] + pr.0) =~= acc@.push(op) + pr.0);
                        },
                        Err(_) => {
                        },
                    }
                }
                acc.push(op);
                cur = j;
                k = k + 1;
            },
        }
    }
    proof {
        assert(acc@ + Seq::<Operation>::empty() =~= acc@);
    }
    Ok((acc, cur))
}

/// Parsing is the inverse of serialization for one operation: wherever the
/// bytes of `ser_op(op)` lie at offset `i`, the parser returns `op` and
/// advances past exactly those bytes.
#[verifier::rlimit(100)]
pub proof fn lemma_parse_ser_op(b: Seq<u8>, i: int, op: Operation)
    requires
        0 <= i,
        i + ser_op(op).len() <= b.len(),
        b.subrange(i, i + ser_op(op).len() as int) == ser_op(op),
    ensures
        parse_op(b, i) == Ok::<(Operation, int), DecodeError>((op, i + ser_op(op).len())),
{
    let s = ser_op(op);
    assert forall|k: int| 0 <= k < s.len() implies b[i + k] == s[k] by {
        assert(b.subrange(i, i + s.len() as int)[k] == b[i + k]);
    }
    assert(b.subrange(i, i + s.len() as int)[0] == b[i]);
    assert(b[i] == s[0]);
    match op {
        Operation::TemplateDef(t) => {
            let s1 = le16_bytes(t.template_id);
            assert(s == seq![1u8] + s1);
            assert(s[1] == s1[0] && s[2] == s1[1]);
            lemma_le16_roundtrip(t.template_id);
        },
        Operation::Instantiate(p) => {
            let s1 = le32_bytes(p.instance_id);
            let s2 = le16_bytes(p.template_id);
            let s3 = le32_bytes(p.parent_id);
            assert(s == seq![2u8] + (s1 + s2 + s3));
            assert(s[1] == s1[0] && s[2] == s1[1] && s[3] == s1[2] && s[4] == s1[3]);
            assert(s[5] == s2[0] && s[6] == s2[1]);
            assert(s[7] == s3[0] && s[8] == s3[1] && s[9] == s3[2] && s[10] == s3[3]);
            lemma_le32_roundtrip(p.instance_id);
            lemma_le16_roundtrip(p.template_id);
            lemma_le32_roundtrip(p.parent_id);
        },
        Operation::PatchText(p) => {
            let s1 = le32_bytes(p.instance_id);
            let s2 = le16_bytes(p.slot_id);
            let s3 = le32_bytes(p.string_id);
            assert(s == seq![3u8] + (s1 + s2 + s3));
            assert(s[1] == s1[0] && s[2] == s1[1] && s[3] == s1[2] && s[4] == s1[3]);
            assert(s[5] == s2[0] && s[6] == s2[1]);
            assert(s[7] == s3[0] && s[8] == s3[1] && s[9] == s3[2] && s[10] == s3[3]);
            lemma_le32_roundtrip(p.instance_id);
            lemma_le16_roundtrip(p.slot_id);
            lemma_le32_roundtrip(p.string_id);
        },
        Operation::PatchAttr(p) => {
            let s1 = le32_bytes(p.instance_id);
            let s2 = le16_bytes(p.slot_id);
            let s3 = le32_bytes(p.attr_name_id);
            let s4 = le32_bytes(p.value_id);
            assert(s == seq![4u8] + (s1 + s2 + s3 + s4));
            assert(s[1] == s1[0] && s[2] == s1[1] && s[3] == s1[2] && s[4] == s1[3]);
            assert(s[5] == s2[0] && s[6] == s2[1]);
            assert(s[7] == s3[0] && s[8] == s3[1] && s[9] == s3[2] && s[10] == s3[3]);
            assert(s[11] == s4[0] && s[12] == s4[1] && s[13] == s4[2] && s[14] == s4[3]);
            lemma_le32_roundtrip(p.instance_id);
            lemma_le16_roundtrip(p.slot_id);
            lemma_le32_roundtrip(p.attr_name_id);
            lemma_le32_roundtrip(p.value_id);
        },
        Operation::PatchClassToggle(p) => {
            let s1 = le32_bytes(p.instance_id);
            let s2 = le32_bytes(p.class_name_id);
            assert(s == seq![5u8] + (s1 + s2 + seq![bool_byte(p.enabled)]));
            assert(s[1] == s1[0] && s[2] == s1[1] && s[3] == s1[2] && s[4] == s1[3]);
            assert(s[5] == s2[0] && s[6] == s2[1] && s[7] == s2[2] && s[8] == s2[3]);
            assert(s[9] == bool_byte(p.enabled));
            lemma_le32_roundtrip(p.instance_id);
            lemma_le32_roundtrip(p.class_name_id);
        },
        Operation::AttachEvent(p) => {
            let s1 = le32_bytes(p.instance_id);
            let s2 = le32_bytes(p.event_type_id);
            let s3 = le32_bytes(p.handler_id);
            assert(s == seq![6u8] + (s1 + s2 + s3));
            assert(s[1] == s1[0] && s[2] == s1[1] && s[3] == s1[2] && s[4] == s1[3]);
            assert(s[5] == s2[0] && s[6] == s2[1] && s[7] == s2[2] && s[8] == s2[3]);
            assert(s[9] == s3[0] && s[10] == s3[1] && s[11] == s3[2] && s[12] == s3[3]);
            lemma_le32_roundtrip(p.instance_id);
            lemma_le32_roundtrip(p.event_type_id);
            lemma_le32_roundtrip(p.handler_id);
        },
        Operation::RemoveNode(p) => {
            let s1 = le32_bytes(p.instance_id);
            assert(s == seq![7u8] + s1);
            assert(s[1] == s1[0] && s[2] == s1[1] && s[3] == s1[2] && s[4] == s1[3]);
            lemma_le32_roundtrip(p.instance_id);
        },
        Operation::BatchStart(p) => {
            let s1 = le32_bytes(p.batch_id);
            assert(s == seq![8u8] + s1);
            assert(s[1] == s1[0] && s[2] == s1[1] && s[3] == s1[2] && s[4] == s1[3]);
            lemma_le32_roundtrip(p.batch_id);
        },
        Operation::BatchCommit(p) => {
            let s1 = le32_bytes(p.batch_id);
            assert(s == seq![9u8] + s1);
            assert(s[1] == s1[0] && s[2] == s1[1] && s[3] == s1[2] && s[4] == s1[3]);
            lemma_le32_roundtrip(p.batch_id);
        },
        Operation::SetProperty(p) => {
            let s1 = le32_bytes(p.instance_id);
            let s2 = le32_bytes(p.prop_name_id);
            let sp = ser_prop(p.value);
            assert(s == seq![10u8] + (s1 + s2 + sp));
            assert(s[1] == s1[0] && s[2] == s1[1] && s[3] == s1[2] && s[4] == s1[3]);
            assert(s[5] == s2[0] && s[6] == s2[1] && s[7] == s2[2] && s[8] == s2[3]);
            assert(s[9] == sp[0]);
            lemma_le32_roundtrip(p.instance_id);
            lemma_le32_roundtrip(p.prop_name_id);
            match p.value {
                PropertyValue::StringId(sid) => {
                    let sv = le32_bytes(sid);
                    assert(sp == seq![0u8] + sv);
                    assert(s[10] == sv[0] && s[11] == sv[1] && s[12] == sv[2] && s[13] == sv[3]);
                    lemma_le32_roundtrip(sid);
                },
                PropertyValue::NumberBits(n) => {
                    let sv = le64_bytes(n);
                    assert(sp == seq![1u8] + sv);
                    assert forall|k2: int| 0 <= k2 < 8 implies b.subrange(i + 10, i + 18)[k2]
                        == sv[k2] by {
                        assert(b[i + 10 + k2] == s[10 + k2]);
                        assert(s[10 + k2] == sp[1 + k2]);
                        assert(sp[1 + k2] == sv[k2]);
                    }
                    assert(b.subrange(i + 10, i + 18) =~= sv);
                    lemma_le64_roundtrip(n);
                },
                PropertyValue::Boolean(v) => {
                    assert(sp == seq![2u8, bool_byte(v)]);
                    assert(s[10] == bool_byte(v));
                },
                PropertyValue::Null => {
                },
            }
        },
        Operation::AppendChild(p) => {
            let s1 = le32_bytes(p.parent_id);
            let s2 = le32_bytes(p.child_id);
            assert(s == seq![11u8] + (s1 + s2));
            assert(s[1] == s1[0] && s[2] == s1[1] && s[3] == s1[2] && s[4] == s1[3]);
            assert(s[5] == s2[0] && s[6] == s2[1] && s[7] == s2[2] && s[8] == s2[3]);
            lemma_le32_roundtrip(p.parent_id);
            lemma_le32_roundtrip(p.child_id);
        },
    }
}

/// Parsing is the inverse of serialization for a whole operation list.
pub proof fn lemma_parse_ser_ops(b: Seq<u8>, i: int, ops: Seq<Operation>)
    requires
        0 <= i,
        i + ser_ops(ops).len() <= b.len(),
        b.subrange(i, i + ser_ops(ops).len() as int) == ser_ops(ops),
    ensures
        parse_ops(b, i, ops.len() as int) == Ok::<(Seq<Operation>, int), DecodeError>(
            (ops, i + ser_ops(ops).len()),
        ),
    decreases ops.len(),
{
    if ops.len() == 0 {
        assert(ops =~= Seq::<Operation>::empty());
    } else {
        let s0 = ser_op(ops[0]);
        let srest = ser_ops(ops.skip(1));
        assert(ser_ops(ops) == s0 + srest);
        assert(b.subrange(i, i + s0.len() as int) =~= s0) by {
            assert forall|k: int| 0 <= k < s0.len() implies b[i + k] == s0[k] by {
                assert(b.subrange(i, i + ser_ops(ops).len() as int)[k] == b[i + k]);
                assert((s0 + srest)[k] == s0[k]);
            }
        }
        lemma_parse_ser_op(b, i, ops[0]);
        let j = i + s0.len();
        assert(b.subrange(j, j + srest.len() as int) =~= srest) by {
            assert forall|k: int| 0 <= k < srest.len() implies b[j + k] == srest[k] by {
                assert(b.subrange(i, i + ser_ops(ops).len() as int)[s0.len() + k] == b[j + k]);
                assert((s0 + srest)[s0.len() + k] == srest[k]);
            }
        }
        lemma_parse_ser_ops(b, j, ops.skip(1));
        assert(ops.skip(1).len() as int == ops.len() as int - 1);
        assert(parse_ops(b, j, ops.len() as int - 1) == Ok::<(Seq<Operation>, int), DecodeError>(
            (ops.skip(1), j + srest.len()),
        ));
        assert(parse_op(b, i) == Ok::<(Operation, int), DecodeError>((ops[0], j)));
        assert(parse_ops(b, i, ops.len() as int) == Ok::<(Seq<Operation>, int), DecodeError>(
            (seq![ops[0]] + ops.skip(1), j + srest.len()),
        ));
        assert(seq![ops[0]] + ops.skip(1) =~= ops);
        assert(j + srest.len() == i + ser_ops(ops).len());
    }
}

pub proof fn lemma_ser_ops_snoc(ops: Seq<Operation>, op: Operation)
    ensures
        ser_ops(ops.push(op)) == ser_ops(ops) + ser_op(op),
    decreases ops.len(),
{
    if ops.len() == 0 {
        assert(ops.push(op).skip(1) =~= Seq::<Operation>::empty());
        assert(ser_ops(Seq::<Operation>::empty()) == Seq::<u8>::empty());
        assert(ops.push(op)[0] == op);
        assert(ser_ops(ops.push(op)) =~= ser_ops(ops) + ser_op(op));
    } else {
        assert(ops.push(op).skip(1) =~= ops.skip(1).push(op));
        assert(ops.push(op)[0] == ops[0]);
        lemma_ser_ops_snoc(ops.skip(1), op);
        assert(ser_ops(ops.push(op)) =~= ser_ops(ops) + ser_op(op));
    }
}

} // verus!
