//! The legacy envelope: a fixed header that carries the signature inline,
//! and the logical payload as plain values, kept for producers that still
//! assemble streams from strings, templates and operations directly.

use vstd::prelude::*;

use vstd::string::StringSliceAdditionalSpecFns;
use vstd::utf8::encode_utf8;

use crate::wire::Operation;
use crate::wire::TemplateDef;

verus! {

/// The magic bytes of the legacy envelope.
pub const MAGIC_BYTES: [u8; 4] = [0x44, 0x58, 0x42, 0x31];

/// The legacy envelope version.
pub const LEGACY_VERSION: u8 = 1;

/// The declared encoded size of the legacy header in bytes.
pub const LEGACY_HEADER_SIZE: usize = 88;

/// The errors of the legacy envelope check.
#[derive(Debug, Clone, Copy, PartialEq, Eq, Structural)]
pub enum DxBinaryError {
    InvalidMagic,
    UnsupportedVersion(u8),
}

/// The legacy header: magic, version, an inline 64-byte signature, and
/// the table counts and section sizes.
#[derive(Debug, Clone, Copy, PartialEq, Eq)]
pub struct HtipHeader {
    pub magic: [u8; 4],
    pub version: u8,
    pub reserved: [u8; 3],
    pub signature: [u8; 64],
    pub template_count: u16,
    pub padding: [u8; 2],
    pub string_count: u32,
    pub total_templates_size: u32,
    pub total_opcodes_size: u32,
}

impl HtipHeader {
    /// Whether magic and version are the frozen ones.
    pub open spec fn is_valid_spec(&self) -> bool {
        self.magic@ == MAGIC_BYTES@ && self.version == LEGACY_VERSION
    }

    /// A fresh header: correct magic and version, zero counts and sizes,
    /// an all-zero signature.
    pub fn new() -> (r: Self)
        ensures
            r.magic@ == MAGIC_BYTES@,
            r.version == LEGACY_VERSION,
            r.signature@ =~= Seq::new(64, |i: int| 0u8),
            r.template_count == 0,
            r.string_count == 0,
            r.total_templates_size == 0,
            r.total_opcodes_size == 0,
            r.is_valid_spec(),
    {
        let r = HtipHeader {
            magic: [0x44, 0x58, 0x42, 0x31],
            version: LEGACY_VERSION,
            reserved: [0; 3],
            signature: [0; 64],
            template_count: 0,
            padding: [0; 2],
            string_count: 0,
            total_templates_size: 0,
            total_opcodes_size: 0,
        };
        proof {
            assert(r.magic@ =~= MAGIC_BYTES@);
            assert(r.signature@ =~= Seq::new(64, |i: int| 0u8));
        }
        r
    }

    /// Verify magic bytes and version: `Ok` exactly when both are the
    /// frozen values; a wrong magic is reported before a wrong version.
    pub fn verify(&self) -> (r: Result<(), DxBinaryError>)
        ensures
            r is Ok <==> self.is_valid_spec(),
            r matches Err(e) ==> (e == DxBinaryError::InvalidMagic && self.magic@ != MAGIC_BYTES@)
                || (e == DxBinaryError::UnsupportedVersion(self.version) && self.magic@
                == MAGIC_BYTES@ && self.version != LEGACY_VERSION),
    {
        let magic_ok = self.magic[0] == 0x44 && self.magic[1] == 0x58 && self.magic[2] == 0x42
            && self.magic[3] == 0x31;
        proof {
            assert(MAGIC_BYTES@[0] == 0x44 && MAGIC_BYTES@[1] == 0x58 && MAGIC_BYTES@[2] == 0x42
                && MAGIC_BYTES@[3] == 0x31);
            if magic_ok {
                assert(self.magic@ =~= MAGIC_BYTES@);
            }
        }
        if !magic_ok {
            return Err(DxBinaryError::InvalidMagic);
        }
        if self.version != LEGACY_VERSION {
            return Err(DxBinaryError::UnsupportedVersion(self.version));
        }
        Ok(())
    }
}

impl Default for HtipHeader {
    /// The same fresh header as `new`.
    fn default() -> (r: Self)
        ensures
            r.is_valid_spec(),
    {
        HtipHeader::new()
    }
}

/// The logical payload of a stream as plain values: the string pool, the
/// template definitions and the operation list.
#[derive(Debug, Clone, PartialEq, Eq)]
pub struct HtipPayload {
    pub strings: Vec<String>,
    pub templates: Vec<TemplateDef>,
    pub operations: Vec<Operation>,
}

/// Add with saturation at `usize::MAX`.
pub open spec fn sat_add(a: int, b: int) -> int {
    if a + b <= usize::MAX {
        a + b
    } else {
        usize::MAX as int
    }
}

/// The estimated byte size of the string pool: each string's UTF-8 length
/// plus a four-byte entry, accumulated with saturation.
pub open spec fn est_strings(ss: Seq<String>, acc: int) -> int
    decreases ss.len(),
{
    if ss.len() == 0 {
        acc
    } else {
        est_strings(ss.skip(1), sat_add(acc, sat_add((encode_utf8(ss[0]@).len() as usize) as int, 4)))
    }
}

/// The estimated total size of a payload: the string pool, a flat 128
/// bytes per template and 32 bytes per operation, saturating at
/// `usize::MAX`.
pub open spec fn estimate_spec(p: HtipPayload) -> int {
    sat_add(
        sat_add(est_strings(p.strings@, 0), sat_add(p.templates@.len() as int * 128, 0)),
        sat_add(p.operations@.len() as int * 32, 0),
    )
}

impl HtipPayload {
    /// An empty payload.
    pub fn new() -> (r: Self)
        ensures
            r.strings@ == Seq::<String>::empty(),
            r.templates@ == Seq::<TemplateDef>::empty(),
            r.operations@ == Seq::<Operation>::empty(),
    {
        HtipPayload { strings: Vec::new(), templates: Vec::new(), operations: Vec::new() }
    }

    /// A rough total size estimate of the encoded payload, saturating at
    /// `usize::MAX`.
    pub fn estimate_size(&self) -> (r: usize)
        ensures
            r == estimate_spec(*self),
    {
        let mut acc: usize = 0;
        let mut k: usize = 0;
        proof {
            assert(self.strings@.skip(0) =~= self.strings@);
        }
        while k < self.strings.len()
            invariant
                k <= self.strings@.len(),
                est_strings(self.strings@, 0) == est_strings(
                    self.strings@.skip(k as int),
                    acc as int,
                ),
            decreases self.strings@.len() - k,
        {
            proof {
                assert(self.strings@.skip(k as int)[0] == self.strings@[k as int]);
                assert(self.strings@.skip(k as int).skip(1) =~= self.strings@.skip(k as int + 1));
            }
            let ghost acc_pre = acc as int;
            let sref = self.strings[k].as_str();
            let blen = sref.len();
            let with_entry = if blen <= usize::MAX - 4 {
                blen + 4
            } else {
                usize::MAX
            };
            acc = if acc <= usize::MAX - with_entry {
                acc + with_entry
            } else {
                usize::MAX
            };
            proof {
                assert(sref@ == self.strings@[k as int]@);
                assert(sref.spec_bytes() == encode_utf8(sref@));
                assert(blen == encode_utf8(self.strings@[k as int]@).len() as usize);
                assert(with_entry as int == sat_add(blen as int, 4));
                assert(acc as int == sat_add(acc_pre, with_entry as int));
            }
            k = k + 1;
        }
        proof {
            assert(self.strings@.skip(self.strings@.len() as int) =~= Seq::<String>::empty());
        }
        let tmpl_part = if self.templates.len() <= usize::MAX / 128 {
            self.templates.len() * 128
        } else {
            usize::MAX
        };
        let op_part = if self.operations.len() <= usize::MAX / 32 {
            self.operations.len() * 32
        } else {
            usize::MAX
        };
        let mut total = if acc <= usize::MAX - tmpl_part {
            acc + tmpl_part
        } else {
            usize::MAX
        };
        total = if total <= usize::MAX - op_part {
            total + op_part
        } else {
            usize::MAX
        };
        total
    }
}

impl Default for HtipPayload {
    /// The same empty payload as `new`.
    fn default() -> (r: Self)
        ensures
            r.strings@ == Seq::<String>::empty(),
            r.templates@ == Seq::<TemplateDef>::empty(),
            r.operations@ == Seq::<Operation>::empty(),
    {
        HtipPayload::new()
    }
}

} // verus!
