//! The fixed-layout records of the wire format: the 16-byte stream header
//! and the flat payload records shared between the serializing and the
//! consuming side, plus the compact error codes.

use vstd::prelude::*;

use crate::bytes::le16_bytes;
use crate::bytes::le32_bytes;
use crate::bytes::lemma_le16_roundtrip;
use crate::bytes::lemma_le32_roundtrip;
use crate::bytes::push_u16_le;
use crate::bytes::push_u32_le;
use crate::bytes::read_u16_le;
use crate::bytes::read_u32_le;
use crate::opwire::rd16;
use crate::opwire::rd32;

verus! {

/// The first 16 bytes after the signature.
///
/// Layout, little-endian: magic `u16` (0x4458, "DX"), version `u8`
/// (currently 2), flags `u8` (bit 0: has strings, bit 1: has templates),
/// template count `u16`, string count `u16`, opcode count `u32`, payload
/// size `u32` (bytes after the header).
#[derive(Clone, Copy, Debug, PartialEq, Eq, Structural)]
pub struct HtipHeader {
    pub magic: u16,
    pub version: u8,
    pub flags: u8,
    pub template_count: u16,
    pub string_count: u16,
    pub opcode_count: u32,
    pub payload_size: u32,
}

/// The magic bytes 0x4458 ("DX" little-endian).
pub const HEADER_MAGIC: u16 = 0x4458;

/// The current protocol version.
pub const HEADER_VERSION: u8 = 2;

/// The encoded header size in bytes.
pub const HEADER_SIZE: usize = 16;

impl HtipHeader {
    /// Whether magic and version are the frozen ones.
    pub open spec fn is_valid_spec(&self) -> bool {
        self.magic == HEADER_MAGIC && self.version == HEADER_VERSION
    }

    /// Validate header magic and version.
    #[inline]
    pub fn is_valid(&self) -> (r: bool)
        ensures
            r == self.is_valid_spec(),
    {
        self.magic == HEADER_MAGIC && self.version == HEADER_VERSION
    }
}

/// The 16 wire bytes of a header.
pub open spec fn ser_header(h: HtipHeader) -> Seq<u8> {
    le16_bytes(h.magic) + seq![h.version, h.flags] + le16_bytes(h.template_count) + le16_bytes(
        h.string_count,
    ) + le32_bytes(h.opcode_count) + le32_bytes(h.payload_size)
}

/// The header denoted by 16 bytes at offset `i`.
pub open spec fn parse_header(b: Seq<u8>, i: int) -> HtipHeader
    recommends
        i + 16 <= b.len(),
{
    HtipHeader {
        magic: rd16(b, i),
        version: b[i + 2],
        flags: b[i + 3],
        template_count: rd16(b, i + 4),
        string_count: rd16(b, i + 6),
        opcode_count: rd32(b, i + 8),
        payload_size: rd32(b, i + 12),
    }
}

/// Append the 16 wire bytes of a header.
pub fn write_header(out: &mut Vec<u8>, h: &HtipHeader)
    ensures
        final(out)@ == old(out)@ + ser_header(*h),
        ser_header(*h).len() == 16,
{
    push_u16_le(out, h.magic);
    out.push(h.version);
    out.push(h.flags);
    push_u16_le(out, h.template_count);
    push_u16_le(out, h.string_count);
    push_u32_le(out, h.opcode_count);
    push_u32_le(out, h.payload_size);
    assert(final(out)@ =~= old(out)@ + ser_header(*h));
}

/// Read the header at offset `i`.
pub fn read_header(b: &[u8], i: usize) -> (h: HtipHeader)
    requires
        i + 16 <= b@.len(),
    ensures
        h == parse_header(b@, i as int),
{
    let blen = b.len();
    proof {
        assert(i + 16 <= blen);
    }
    HtipHeader {
        magic: read_u16_le(b, i),
        version: b[i + 2],
        flags: b[i + 3],
        template_count: read_u16_le(b, i + 4),
        string_count: read_u16_le(b, i + 6),
        opcode_count: read_u32_le(b, i + 8),
        payload_size: read_u32_le(b, i + 12),
    }
}

/// Parsing is the inverse of serialization for the header.
pub proof fn lemma_parse_ser_header(b: Seq<u8>, i: int, h: HtipHeader)
    requires
        0 <= i,
        i + 16 <= b.len(),
        b.subrange(i, i + 16) == ser_header(h),
    ensures
        parse_header(b, i) == h,
{
    let s = ser_header(h);
    assert forall|k: int| 0 <= k < 16 implies b[i + k] == s[k] by {
        assert(b.subrange(i, i + 16)[k] == b[i + k]);
    }
    assert(b.subrange(i, i + 16)[0] == b[i]);
    assert(b[i] == s[0]);
    let m = le16_bytes(h.magic);
    let tc = le16_bytes(h.template_count);
    let sc = le16_bytes(h.string_count);
    let oc = le32_bytes(h.opcode_count);
    let ps = le32_bytes(h.payload_size);
    assert(s == m + seq![h.version, h.flags] + tc + sc + oc + ps);
    assert(s[0] == m[0] && s[1] == m[1]);
    assert(s[2] == h.version && s[3] == h.flags);
    assert(s[4] == tc[0] && s[5] == tc[1]);
    assert(s[6] == sc[0] && s[7] == sc[1]);
    assert(s[8] == oc[0] && s[9] == oc[1] && s[10] == oc[2] && s[11] == oc[3]);
    assert(s[12] == ps[0] && s[13] == ps[1] && s[14] == ps[2] && s[15] == ps[3]);
    lemma_le16_roundtrip(h.magic);
    lemma_le16_roundtrip(h.template_count);
    lemma_le16_roundtrip(h.string_count);
    lemma_le32_roundtrip(h.opcode_count);
    lemma_le32_roundtrip(h.payload_size);
}

/// Opcode types of the compact client-side record layout.
#[derive(Clone, Copy, Debug, PartialEq, Eq, Structural)]
pub enum OpType {
    Clone,
    PatchText,
    PatchAttr,
    ClassToggle,
    Remove,
    SetStyle,
    BatchStart,
    BatchCommit,
}

/// The fixed numeric code of each compact op type.
pub open spec fn op_type_code(t: OpType) -> u8 {
    match t {
        OpType::Clone => 1,
        OpType::PatchText => 2,
        OpType::PatchAttr => 3,
        OpType::ClassToggle => 4,
        OpType::Remove => 5,
        OpType::SetStyle => 6,
        OpType::BatchStart => 7,
        OpType::BatchCommit => 8,
    }
}

/// The compact op type denoted by a byte, if any.
pub open spec fn op_type_of(v: u8) -> Option<OpType> {
    match v {
        1u8 => Some(OpType::Clone),
        2u8 => Some(OpType::PatchText),
        3u8 => Some(OpType::PatchAttr),
        4u8 => Some(OpType::ClassToggle),
        5u8 => Some(OpType::Remove),
        6u8 => Some(OpType::SetStyle),
        7u8 => Some(OpType::BatchStart),
        8u8 => Some(OpType::BatchCommit),
        _ => None,
    }
}

impl OpType {
    /// Convert a byte to a compact op type.
    #[inline]
    pub fn from_u8(v: u8) -> (r: Option<Self>)
        ensures
            r == op_type_of(v),
            r matches Some(t) ==> op_type_code(t) == v,
    {
        match v {
            1u8 => Some(OpType::Clone),
            2u8 => Some(OpType::PatchText),
            3u8 => Some(OpType::PatchAttr),
            4u8 => Some(OpType::ClassToggle),
            5u8 => Some(OpType::Remove),
            6u8 => Some(OpType::SetStyle),
            7u8 => Some(OpType::BatchStart),
            8u8 => Some(OpType::BatchCommit),
            _ => None,
        }
    }
}

/// The fixed-size opcode record header of the compact layout: type byte,
/// alignment byte, target node id.
#[derive(Clone, Copy, Debug, PartialEq, Eq, Structural)]
pub struct OpcodeHeader {
    pub op_type: u8,
    pub reserved: u8,
    pub target_id: u16,
}

/// The encoded size of an `OpcodeHeader` in bytes.
pub const OPCODE_HEADER_SIZE: usize = 4;

/// Clone operation: instantiate a template under a parent.
#[derive(Clone, Copy, Debug, PartialEq, Eq, Structural)]
pub struct ClonePayload {
    pub template_id: u16,
    pub parent_id: u16,
}

/// Text patch: update a node's text content.
#[derive(Clone, Copy, Debug, PartialEq, Eq, Structural)]
pub struct PatchTextPayload {
    pub string_idx: u16,
    pub reserved: u16,
}

/// Attribute patch: update an attribute value.
#[derive(Clone, Copy, Debug, PartialEq, Eq, Structural)]
pub struct PatchAttrPayload {
    pub attr_name_idx: u16,
    pub attr_value_idx: u16,
}

/// Class toggle: add or remove a CSS class.
#[derive(Clone, Copy, Debug, PartialEq, Eq, Structural)]
pub struct ClassTogglePayload {
    pub class_name_idx: u16,
    pub enable: u8,
    pub reserved: u8,
}

/// Style set: update an inline style property.
#[derive(Clone, Copy, Debug, PartialEq, Eq, Structural)]
pub struct SetStylePayload {
    pub prop_name_idx: u16,
    pub prop_value_idx: u16,
}

/// A string entry of the table: offset into the blob and length in bytes.
#[derive(Clone, Copy, Debug, PartialEq, Eq, Structural)]
pub struct StringEntry {
    pub offset: u32,
    pub len: u16,
    pub reserved: u16,
}

/// The encoded size of a `StringEntry` in bytes.
pub const STRING_ENTRY_SIZE: usize = 8;

/// A template entry of the compact dictionary.
#[derive(Clone, Copy, Debug, PartialEq, Eq)]
pub struct TemplateEntry {
    pub id: u16,
    pub html_string_idx: u16,
    pub slot_count: u8,
    pub reserved: [u8; 3],
}

/// The encoded size of a `TemplateEntry` in bytes.
pub const TEMPLATE_ENTRY_SIZE: usize = 8;

/// Compact error codes for the sandboxed consumer: no strings, one byte.
#[derive(Clone, Copy, Debug, PartialEq, Eq, Structural)]
pub enum ErrorCode {
    Success,
    InvalidMagic,
    UnsupportedVersion,
    InvalidOpcode,
    TemplateNotFound,
    StringIndexOutOfBounds,
    NodeNotFound,
    BufferTooSmall,
}

/// The fixed numeric code of each compact error.
pub open spec fn compact_code(e: ErrorCode) -> u8 {
    match e {
        ErrorCode::Success => 0,
        ErrorCode::InvalidMagic => 1,
        ErrorCode::UnsupportedVersion => 2,
        ErrorCode::InvalidOpcode => 3,
        ErrorCode::TemplateNotFound => 4,
        ErrorCode::StringIndexOutOfBounds => 5,
        ErrorCode::NodeNotFound => 6,
        ErrorCode::BufferTooSmall => 7,
    }
}

impl ErrorCode {
    /// The single-byte code of this error.
    pub fn code(self) -> (r: u8)
        ensures
            r == compact_code(self),
    {
        match self {
            ErrorCode::Success => 0,
            ErrorCode::InvalidMagic => 1,
            ErrorCode::UnsupportedVersion => 2,
            ErrorCode::InvalidOpcode => 3,
            ErrorCode::TemplateNotFound => 4,
            ErrorCode::StringIndexOutOfBounds => 5,
            ErrorCode::NodeNotFound => 6,
            ErrorCode::BufferTooSmall => 7,
        }
    }
}

/// The detached Ed25519 signature size in bytes.
pub const SIGNATURE_SIZE: usize = 64;

/// The default cap on templates.
pub const MAX_TEMPLATES: u16 = 4096;

/// The default cap on strings in the table.
pub const MAX_STRINGS: u16 = 65535;

/// The default cap on live nodes.
pub const MAX_NODES: u16 = 65535;

} // verus!
