//! The client runtime's memory model: the linear memory regions, the
//! capability manifest that gates what a stream may do, the static string
//! dictionary, and the render opcode queue records.
//!
//! The region arithmetic and lookups are modelled over plain offsets; the
//! raw memory the offsets address belongs to the host.

use vstd::prelude::*;

use vstd::slice::slice_subrange;

verus! {

/// Total size of the linear memory.
pub const MEMORY_SIZE: usize = 16 * 1024 * 1024;

/// Static region: read-only dictionaries.
pub const STATIC_REGION_START: usize = 0;

pub const STATIC_REGION_SIZE: usize = 2 * 1024 * 1024;

/// State region: component state.
pub const STATE_REGION_START: usize = STATIC_REGION_SIZE;

pub const STATE_REGION_SIZE: usize = 8 * 1024 * 1024;

/// Queue region: render opcode ring buffer.
pub const QUEUE_REGION_START: usize = STATE_REGION_START + STATE_REGION_SIZE;

pub const QUEUE_REGION_SIZE: usize = 6 * 1024 * 1024;

/// Capability flags for security checks, one bit each.
#[derive(Debug, Clone, Copy, PartialEq, Eq, Structural)]
pub struct CapabilityFlags(pub u64);

/// Permission to write the UI tree.
pub const CAP_DOM_WRITE: u64 = 1;

/// Permission to read the UI tree.
pub const CAP_DOM_READ: u64 = 2;

/// Permission to fetch over the network.
pub const CAP_NETWORK_FETCH: u64 = 4;

/// Permission to use local storage.
pub const CAP_LOCAL_STORAGE: u64 = 8;

/// Permission to spawn workers.
pub const CAP_WORKER_SPAWN: u64 = 16;

impl CapabilityFlags {
    /// Whether every bit of `flag` is granted.
    pub fn has_capability(&self, flag: u64) -> (r: bool)
        ensures
            r == (self.0 & flag != 0),
    {
        self.0 & flag != 0
    }
}

/// The magic number of a capability manifest.
pub const MANIFEST_MAGIC: u32 = 0x4458_5757;

/// The capability manifest at the head of the static region.
#[derive(Debug, Clone, Copy, PartialEq, Eq)]
pub struct CapabilityManifest {
    pub magic: u32,
    pub version: u32,
    pub capabilities: CapabilityFlags,
    pub checksum: u32,
    pub reserved: [u32; 11],
}

impl CapabilityManifest {
    /// Validate the manifest: `Ok` exactly when the magic number matches.
    pub fn validate(&self) -> (r: Result<(), &'static str>)
        ensures
            r is Ok <==> self.magic == MANIFEST_MAGIC,
    {
        if self.magic != MANIFEST_MAGIC {
            return Err("Invalid magic number - binary corrupted");
        }
        Ok(())
    }
}

/// The allocation state of the linear memory's state region: a bump
/// allocator over offsets. The raw memory belongs to the host; the manager
/// accounts for what has been handed out.
#[derive(Debug, Clone, Copy, PartialEq, Eq, Structural)]
pub struct MemoryManager {
    pub state_offset: u32,
    pub queue_offset: u32,
}

impl MemoryManager {
    /// A fresh manager with nothing allocated.
    pub fn new() -> (r: MemoryManager)
        ensures
            r.state_offset == 0,
            r.queue_offset == 0,
    {
        MemoryManager { state_offset: 0, queue_offset: 0 }
    }

    /// Allocate `size` bytes in the state region: returns the old offset
    /// and bumps it, exactly when the region has room.
    pub fn alloc_state(&mut self, size: u32) -> (r: Result<u32, &'static str>)
        ensures
            r matches Ok(offset) ==> offset == old(self).state_offset && final(self).state_offset
                == old(self).state_offset + size && old(self).state_offset + size
                <= STATE_REGION_SIZE,
            r is Err ==> *final(self) == *old(self) && old(self).state_offset + size
                > STATE_REGION_SIZE,
    {
        if self.state_offset as u64 + size as u64 > STATE_REGION_SIZE as u64 {
            return Err("State Region overflow");
        }
        let offset = self.state_offset;
        self.state_offset = self.state_offset + size;
        Ok(offset)
    }
}

impl Default for MemoryManager {
    /// The same fresh manager as `new`.
    fn default() -> (r: MemoryManager)
        ensures
            r.state_offset == 0,
            r.queue_offset == 0,
    {
        MemoryManager::new()
    }
}

/// A static string stored in the static region: offset and length.
#[derive(Debug, Clone, Copy, PartialEq, Eq, Structural)]
pub struct StaticString {
    pub offset: u32,
    pub len: u32,
}

/// The dictionary of class names held in the static region: a count and a
/// fixed array of entries.
pub struct ClassNameDictionary {
    pub count: u32,
    pub entries: [StaticString; 256],
}

impl ClassNameDictionary {
    /// Every entry below `count` lies inside a region of `region_len`
    /// bytes, and `count` fits the array.
    pub open spec fn wf(&self, region_len: int) -> bool {
        &&& self.count <= 256
        &&& (forall|j: int|
            0 <= j < self.count ==> (#[trigger] self.entries@[j]).offset
                + self.entries@[j].len <= region_len)
    }

    /// Look a class name up by id: its bytes out of the static region,
    /// `None` exactly when the id is out of range.
    pub fn get<'a>(&self, id: u32, static_region: &'a [u8]) -> (r: Option<&'a [u8]>)
        requires
            self.wf(static_region@.len() as int),
        ensures
            r is Some <==> id < self.count,
            r matches Some(s) ==> s@ == static_region@.subrange(
                self.entries@[id as int].offset as int,
                self.entries@[id as int].offset + self.entries@[id as int].len,
            ),
    {
        if id >= self.count {
            return None;
        }
        let entry = self.entries[id as usize];
        let region_len: usize = static_region.len();
        proof {
            assert(entry == self.entries@[id as int]);
            assert(self.entries@[id as int].offset + self.entries@[id as int].len
                <= static_region@.len());
        }
        let start = entry.offset as usize;
        let end = start + entry.len as usize;
        Some(slice_subrange(static_region, start, end))
    }
}

/// Opcode types of the render queue.
#[derive(Debug, Clone, Copy, PartialEq, Eq, Structural)]
pub enum OpCode {
    Clone,
    UpdateText,
    UpdateAttr,
    Remove,
}

/// The fixed numeric code of each render opcode.
pub open spec fn render_code(c: OpCode) -> u8 {
    match c {
        OpCode::Clone => 1,
        OpCode::UpdateText => 2,
        OpCode::UpdateAttr => 3,
        OpCode::Remove => 4,
    }
}

impl OpCode {
    /// The one-byte code of this render opcode.
    pub fn code(self) -> (r: u8)
        ensures
            r == render_code(self),
    {
        match self {
            OpCode::Clone => 1,
            OpCode::UpdateText => 2,
            OpCode::UpdateAttr => 3,
            OpCode::Remove => 4,
        }
    }
}

/// One render operation in the queue: an opcode byte and three arguments.
#[derive(Debug, Clone, Copy, PartialEq, Eq)]
pub struct RenderOp {
    pub opcode: u8,
    pub reserved: [u8; 3],
    pub arg1: u32,
    pub arg2: u32,
    pub arg3: u32,
}

impl RenderOp {
    /// A clone operation: instantiate `template_id` under `parent_id`.
    pub fn new_clone(template_id: u32, parent_id: u32) -> (r: Self)
        ensures
            r.opcode == render_code(OpCode::Clone),
            r.arg1 == template_id,
            r.arg2 == parent_id,
            r.arg3 == 0,
    {
        RenderOp {
            opcode: OpCode::Clone.code(),
            reserved: [0; 3],
            arg1: template_id,
            arg2: parent_id,
            arg3: 0,
        }
    }

    /// A text update: set `node_id`'s text from the state region.
    pub fn new_update_text(node_id: u32, text_offset: u32, text_len: u32) -> (r: Self)
        ensures
            r.opcode == render_code(OpCode::UpdateText),
            r.arg1 == node_id,
            r.arg2 == text_offset,
            r.arg3 == text_len,
    {
        RenderOp {
            opcode: OpCode::UpdateText.code(),
            reserved: [0; 3],
            arg1: node_id,
            arg2: text_offset,
            arg3: text_len,
        }
    }
}

} // verus!
