//! Wire types: opcode tags, payload records, the error taxonomy and the
//! configurable resource caps.
//!
//! The opcode tag is one byte with fixed numeric codes, and the error kinds
//! are surfaced as single-byte codes so a memory-constrained decoder can
//! propagate failures without allocating.

use vstd::prelude::*;

verus! {

/// The eleven opcodes of the protocol. The set is closed: it is a stability
/// contract of the wire format.
#[derive(Debug, Clone, Copy, PartialEq, Eq, Structural)]
pub enum OpcodeV1 {
    TemplateDef,
    Instantiate,
    PatchText,
    PatchAttr,
    PatchClassToggle,
    AttachEvent,
    RemoveNode,
    BatchStart,
    BatchCommit,
    SetProperty,
    AppendChild,
}

/// The fixed one-byte code of each opcode tag.
pub open spec fn opcode_tag(op: OpcodeV1) -> u8 {
    match op {
        OpcodeV1::TemplateDef => 1,
        OpcodeV1::Instantiate => 2,
        OpcodeV1::PatchText => 3,
        OpcodeV1::PatchAttr => 4,
        OpcodeV1::PatchClassToggle => 5,
        OpcodeV1::AttachEvent => 6,
        OpcodeV1::RemoveNode => 7,
        OpcodeV1::BatchStart => 8,
        OpcodeV1::BatchCommit => 9,
        OpcodeV1::SetProperty => 10,
        OpcodeV1::AppendChild => 11,
    }
}

/// The opcode denoted by a tag byte, if any.
pub open spec fn opcode_of_tag(byte: u8) -> Option<OpcodeV1> {
    match byte {
        1u8 => Some(OpcodeV1::TemplateDef),
        2u8 => Some(OpcodeV1::Instantiate),
        3u8 => Some(OpcodeV1::PatchText),
        4u8 => Some(OpcodeV1::PatchAttr),
        5u8 => Some(OpcodeV1::PatchClassToggle),
        6u8 => Some(OpcodeV1::AttachEvent),
        7u8 => Some(OpcodeV1::RemoveNode),
        8u8 => Some(OpcodeV1::BatchStart),
        9u8 => Some(OpcodeV1::BatchCommit),
        10u8 => Some(OpcodeV1::SetProperty),
        11u8 => Some(OpcodeV1::AppendChild),
        _ => None,
    }
}

impl OpcodeV1 {
    /// Convert a tag byte to an opcode, for deserialization.
    pub fn from_u8(byte: u8) -> (r: Option<Self>)
        ensures
            r == opcode_of_tag(byte),
    {
        match byte {
            1u8 => Some(OpcodeV1::TemplateDef),
            2u8 => Some(OpcodeV1::Instantiate),
            3u8 => Some(OpcodeV1::PatchText),
            4u8 => Some(OpcodeV1::PatchAttr),
            5u8 => Some(OpcodeV1::PatchClassToggle),
            6u8 => Some(OpcodeV1::AttachEvent),
            7u8 => Some(OpcodeV1::RemoveNode),
            8u8 => Some(OpcodeV1::BatchStart),
            9u8 => Some(OpcodeV1::BatchCommit),
            10u8 => Some(OpcodeV1::SetProperty),
            11u8 => Some(OpcodeV1::AppendChild),
            _ => None,
        }
    }

    /// Convert an opcode to its tag byte, for serialization.
    pub fn to_u8(self) -> (r: u8)
        ensures
            r == opcode_tag(self),
            opcode_of_tag(r) == Some(self),
    {
        match self {
            OpcodeV1::TemplateDef => 1,
            OpcodeV1::Instantiate => 2,
            OpcodeV1::PatchText => 3,
            OpcodeV1::PatchAttr => 4,
            OpcodeV1::PatchClassToggle => 5,
            OpcodeV1::AttachEvent => 6,
            OpcodeV1::RemoveNode => 7,
            OpcodeV1::BatchStart => 8,
            OpcodeV1::BatchCommit => 9,
            OpcodeV1::SetProperty => 10,
            OpcodeV1::AppendChild => 11,
        }
    }
}

/// Every tag/byte conversion is the inverse of the other.
pub proof fn lemma_opcode_tag_roundtrip(op: OpcodeV1, byte: u8)
    ensures
        opcode_of_tag(opcode_tag(op)) == Some(op),
        opcode_of_tag(byte) matches Some(o) ==> opcode_tag(o) == byte,
{
}

/// Instantiate a template under a parent node.
#[derive(Debug, Clone, PartialEq, Eq)]
pub struct Instantiate {
    pub instance_id: u32,
    pub template_id: u16,
    pub parent_id: u32,
}

/// Patch the text content of a slot.
#[derive(Debug, Clone, PartialEq, Eq)]
pub struct PatchText {
    pub instance_id: u32,
    pub slot_id: u16,
    pub string_id: u32,
}

/// Patch an attribute value at a slot.
#[derive(Debug, Clone, PartialEq, Eq)]
pub struct PatchAttr {
    pub instance_id: u32,
    pub slot_id: u16,
    pub attr_name_id: u32,
    pub value_id: u32,
}

/// Toggle a CSS class on an instance.
#[derive(Debug, Clone, PartialEq, Eq)]
pub struct PatchClassToggle {
    pub instance_id: u32,
    pub class_name_id: u32,
    pub enabled: bool,
}

/// Attach a host-managed event handler.
#[derive(Debug, Clone, PartialEq, Eq)]
pub struct AttachEvent {
    pub instance_id: u32,
    pub event_type_id: u32,
    pub handler_id: u32,
}

/// Remove an instance; its id may not be re-used within the same stream.
#[derive(Debug, Clone, PartialEq, Eq)]
pub struct RemoveNode {
    pub instance_id: u32,
}

/// Open a transactional batch.
#[derive(Debug, Clone, PartialEq, Eq)]
pub struct BatchStart {
    pub batch_id: u32,
}

/// Commit the open batch with the same id.
#[derive(Debug, Clone, PartialEq, Eq)]
pub struct BatchCommit {
    pub batch_id: u32,
}

/// Set a typed property on an instance.
#[derive(Debug, Clone, PartialEq, Eq)]
pub struct SetProperty {
    pub instance_id: u32,
    pub prop_name_id: u32,
    pub value: PropertyValue,
}

/// Reparent an existing instance under a parent.
#[derive(Debug, Clone, PartialEq, Eq)]
pub struct AppendChild {
    pub parent_id: u32,
    pub child_id: u32,
}

/// Register a template from the template table with the host.
#[derive(Debug, Clone, PartialEq, Eq)]
pub struct TemplateRef {
    pub template_id: u16,
}

/// A typed property value. The number variant carries the eight raw
/// little-endian bytes of the wire encoding as an integer, so the codec
/// stays agnostic to the host's numeric interpretation.
#[derive(Debug, Clone, Copy, PartialEq, Eq)]
pub enum PropertyValue {
    StringId(u32),
    NumberBits(u64),
    Boolean(bool),
    Null,
}

/// One operation of the stream: a tagged union over the eleven opcodes.
/// Payload records carry integer ids only; all strings go through the table.
#[derive(Debug, Clone, PartialEq, Eq)]
pub enum Operation {
    TemplateDef(TemplateRef),
    Instantiate(Instantiate),
    PatchText(PatchText),
    PatchAttr(PatchAttr),
    PatchClassToggle(PatchClassToggle),
    AttachEvent(AttachEvent),
    RemoveNode(RemoveNode),
    BatchStart(BatchStart),
    BatchCommit(BatchCommit),
    SetProperty(SetProperty),
    AppendChild(AppendChild),
}

/// The opcode tag of an operation.
pub open spec fn opcode_of(op: Operation) -> OpcodeV1 {
    match op {
        Operation::TemplateDef(_) => OpcodeV1::TemplateDef,
        Operation::Instantiate(_) => OpcodeV1::Instantiate,
        Operation::PatchText(_) => OpcodeV1::PatchText,
        Operation::PatchAttr(_) => OpcodeV1::PatchAttr,
        Operation::PatchClassToggle(_) => OpcodeV1::PatchClassToggle,
        Operation::AttachEvent(_) => OpcodeV1::AttachEvent,
        Operation::RemoveNode(_) => OpcodeV1::RemoveNode,
        Operation::BatchStart(_) => OpcodeV1::BatchStart,
        Operation::BatchCommit(_) => OpcodeV1::BatchCommit,
        Operation::SetProperty(_) => OpcodeV1::SetProperty,
        Operation::AppendChild(_) => OpcodeV1::AppendChild,
    }
}

impl Operation {
    /// Get the opcode for this operation.
    pub fn opcode(&self) -> (r: OpcodeV1)
        ensures
            r == opcode_of(*self),
    {
        match self {
            Operation::TemplateDef(_) => OpcodeV1::TemplateDef,
            Operation::Instantiate(_) => OpcodeV1::Instantiate,
            Operation::PatchText(_) => OpcodeV1::PatchText,
            Operation::PatchAttr(_) => OpcodeV1::PatchAttr,
            Operation::PatchClassToggle(_) => OpcodeV1::PatchClassToggle,
            Operation::AttachEvent(_) => OpcodeV1::AttachEvent,
            Operation::RemoveNode(_) => OpcodeV1::RemoveNode,
            Operation::BatchStart(_) => OpcodeV1::BatchStart,
            Operation::BatchCommit(_) => OpcodeV1::BatchCommit,
            Operation::SetProperty(_) => OpcodeV1::SetProperty,
            Operation::AppendChild(_) => OpcodeV1::AppendChild,
        }
    }
}

/// The typed kind of a template slot. Attribute, property and event slots
/// carry the string id of their name.
#[derive(Debug, Clone, PartialEq, Eq)]
pub enum BindingType {
    Text,
    Attribute { attr_name_id: u32 },
    Property { prop_name_id: u32 },
    Event { event_type_id: u32 },
    Class,
}

/// A slot definition: a path-addressed, typed mutation point of a template.
/// `path` is a tree-walk address relative to the template root.
#[derive(Debug, Clone, PartialEq, Eq)]
pub struct Binding {
    pub slot_id: u16,
    pub binding_type: BindingType,
    pub path: Vec<u8>,
}

/// A template definition: an HTML-shaped fragment (referenced through the
/// string table) with its typed slots.
#[derive(Debug, Clone, PartialEq, Eq)]
pub struct TemplateDef {
    pub id: u16,
    pub html_string_id: u32,
    pub bindings: Vec<Binding>,
}

/// The error taxonomy of the decoder and patcher, exposed as single-byte
/// codes so the sandboxed decoder can surface failures without allocating.
#[derive(Debug, Clone, Copy, PartialEq, Eq, Structural)]
pub enum DecodeError {
    InvalidMagic,
    UnsupportedVersion,
    InvalidOpcode,
    TemplateNotFound,
    StringOutOfBounds,
    NodeNotFound,
    BufferTooSmall,
    InvalidSignature,
    UnbalancedBatch,
    ResourceLimitExceeded,
    PatchCorrupt,
}

/// The fixed single-byte code of each error kind.
pub open spec fn error_code_spec(e: DecodeError) -> u8 {
    match e {
        DecodeError::InvalidMagic => 1,
        DecodeError::UnsupportedVersion => 2,
        DecodeError::InvalidOpcode => 3,
        DecodeError::TemplateNotFound => 4,
        DecodeError::StringOutOfBounds => 5,
        DecodeError::NodeNotFound => 6,
        DecodeError::BufferTooSmall => 7,
        DecodeError::InvalidSignature => 8,
        DecodeError::UnbalancedBatch => 9,
        DecodeError::ResourceLimitExceeded => 10,
        DecodeError::PatchCorrupt => 11,
    }
}

impl DecodeError {
    /// The single-byte code of this error kind.
    pub fn code(self) -> (r: u8)
        ensures
            r == error_code_spec(self),
    {
        match self {
            DecodeError::InvalidMagic => 1,
            DecodeError::UnsupportedVersion => 2,
            DecodeError::InvalidOpcode => 3,
            DecodeError::TemplateNotFound => 4,
            DecodeError::StringOutOfBounds => 5,
            DecodeError::NodeNotFound => 6,
            DecodeError::BufferTooSmall => 7,
            DecodeError::InvalidSignature => 8,
            DecodeError::UnbalancedBatch => 9,
            DecodeError::ResourceLimitExceeded => 10,
            DecodeError::PatchCorrupt => 11,
        }
    }
}

/// The error the encoder reports for an input that references an unknown id,
/// an unbalanced batch, or an instance used before its `Instantiate`.
#[derive(Debug, Clone, Copy, PartialEq, Eq, Structural)]
pub enum EncodeError {
    InvalidInput,
    ResourceLimitExceeded,
}

/// Configurable hard caps enforced during decode. Exceeding any cap is
/// reported as `ResourceLimitExceeded`.
#[derive(Debug, Clone, Copy, PartialEq, Eq, Structural)]
pub struct Limits {
    pub max_templates: u16,
    pub max_strings: u16,
    pub max_instances: u32,
    pub max_stream_size: u32,
    pub max_path_depth: u8,
    pub max_batch_ops: u32,
}

/// The default caps: 4096 templates, 65535 strings, 65535 instances,
/// a 16 MiB stream, path depth 32 and 16384 operations per batch.
pub open spec fn default_limits() -> Limits {
    Limits {
        max_templates: 4096,
        max_strings: 65535,
        max_instances: 65535,
        max_stream_size: 16777216,
        max_path_depth: 32,
        max_batch_ops: 16384,
    }
}

impl Limits {
    /// The default caps.
    pub fn new() -> (r: Limits)
        ensures
            r == default_limits(),
    {
        Limits {
            max_templates: 4096,
            max_strings: 65535,
            max_instances: 65535,
            max_stream_size: 16777216,
            max_path_depth: 32,
            max_batch_ops: 16384,
        }
    }
}

impl Default for Limits {
    /// The default caps.
    fn default() -> (r: Limits)
        ensures
            r == default_limits(),
    {
        Limits::new()
    }
}

} // verus!
