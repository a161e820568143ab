//! The stream codec: `encode` serializes a validated payload into one
//! signed byte stream, `decode` verifies the signature and converts the
//! bytes back into a validated payload.
//!
//! `decode_spec` is the single definition of what the decoder returns on
//! every input; `lemma_round_trip` proves that decoding an encoded stream
//! under the signer's public key yields the original payload.

use vstd::prelude::*;

use vstd::slice::slice_subrange;

use crate::crypto::ed25519_pubkey_of;
use crate::crypto::ed25519_sign_of;
use crate::crypto::ed25519_verifies;
use crate::crypto::sign_detached;
use crate::crypto::verify_detached;
use crate::opwire::parse_ops;
use crate::opwire::read_ops;
use crate::opwire::ser_ops;
use crate::opwire::write_ops;
use crate::packet::HEADER_MAGIC;
use crate::packet::HEADER_VERSION;
use crate::packet::HtipHeader;
use crate::packet::lemma_parse_ser_header;
use crate::packet::parse_header;
use crate::packet::read_header;
use crate::packet::ser_header;
use crate::packet::write_header;
use crate::scan::validate_ops;
use crate::scan::validate_ops_exec;
use crate::strtab::StringTable;
use crate::strtab::lemma_parse_ser_strtab;
use crate::strtab::parse_strtab;
use crate::strtab::read_strtab;
use crate::strtab::ser_strtab;
use crate::strtab::strings_fit;
use crate::strtab::strings_view;
use crate::strtab::write_strtab;
use crate::tmpltab::TemplateV;
use crate::tmpltab::check_templates_exec;
use crate::tmpltab::check_templates_from;
use crate::tmpltab::lemma_parse_ser_templates;
use crate::tmpltab::parse_templates;
use crate::tmpltab::read_templates;
use crate::tmpltab::ser_templates;
use crate::tmpltab::templates_fit;
use crate::tmpltab::templates_view;
use crate::tmpltab::write_templates;
use crate::wire::DecodeError;
use crate::wire::EncodeError;
use crate::wire::Limits;
use crate::wire::Operation;
use crate::wire::TemplateDef;

verus! {

/// The logical content of one stream: the resolved strings, the template
/// table, and the operation sequence.
pub struct StreamV {
    pub strings: Seq<Seq<u8>>,
    pub templates: Seq<TemplateV>,
    pub ops: Seq<Operation>,
}

/// A decoded, validated stream, ready for dispatch.
#[derive(Debug, Clone, PartialEq, Eq)]
pub struct DecodedStream {
    pub strings: Vec<Vec<u8>>,
    pub templates: Vec<TemplateDef>,
    pub operations: Vec<Operation>,
}

impl View for DecodedStream {
    type V = StreamV;

    open spec fn view(&self) -> StreamV {
        StreamV {
            strings: strings_view(self.strings@),
            templates: templates_view(self.templates@),
            ops: self.operations@,
        }
    }
}

/// The header the encoder writes for a payload.
pub open spec fn header_of(s: StreamV) -> HtipHeader {
    HtipHeader {
        magic: HEADER_MAGIC,
        version: HEADER_VERSION,
        flags: ((if s.strings.len() > 0 {
            1u8
        } else {
            0u8
        }) | (if s.templates.len() > 0 {
            2u8
        } else {
            0u8
        })),
        template_count: s.templates.len() as u16,
        string_count: s.strings.len() as u16,
        opcode_count: s.ops.len() as u32,
        payload_size: (ser_strtab(s.strings).len() + ser_templates(s.templates).len() + ser_ops(
            s.ops,
        ).len()) as u32,
    }
}

/// The canonical payload bytes of a stream: header, string section,
/// template table, opcode stream.
pub open spec fn ser_payload(s: StreamV) -> Seq<u8> {
    ser_header(header_of(s)) + ser_strtab(s.strings) + ser_templates(s.templates) + ser_ops(s.ops)
}

/// Everything the encoder checks before it signs; exactly what the decoder
/// will accept. A stream built from a payload satisfying this round-trips.
pub open spec fn encode_ok(s: StreamV, lim: Limits) -> bool {
    &&& strings_fit(s.strings)
    &&& s.strings.len() <= lim.max_strings
    &&& templates_fit(s.templates)
    &&& s.templates.len() <= lim.max_templates
    &&& check_templates_from(s.templates, 0, s.strings.len() as int, lim) is Ok
    &&& s.ops.len() <= 0xFFFFFFFF
    &&& validate_ops(s.templates, s.strings.len() as int, lim, s.ops) is Ok
    &&& ser_payload(s).len() - 16 <= 0xFFFFFFFF
    &&& 64 + ser_payload(s).len() <= lim.max_stream_size
}

/// What `decode` returns on every input. The envelope is checked first
/// (minimum length, the stream-size cap, then the detached signature), then
/// the header, the tables, the opcode stream, and last the reference scan.
/// A payload whose sections do not tile the declared size exactly is
/// rejected as `BufferTooSmall`.
pub open spec fn decode_spec(b: Seq<u8>, pk: Seq<u8>, lim: Limits) -> Result<
    StreamV,
    DecodeError,
> {
    if b.len() < 80 {
        Err(DecodeError::BufferTooSmall)
    } else if b.len() > lim.max_stream_size {
        Err(DecodeError::ResourceLimitExceeded)
    } else {
        let sig = b.subrange(0, 64);
        let pay = b.subrange(64, b.len() as int);
        if !ed25519_verifies(pk, pay, sig) {
            Err(DecodeError::InvalidSignature)
        } else {
            let h = parse_header(pay, 0);
            if h.magic != HEADER_MAGIC {
                Err(DecodeError::InvalidMagic)
            } else if h.version != HEADER_VERSION {
                Err(DecodeError::UnsupportedVersion)
            } else if h.payload_size != pay.len() - 16 {
                Err(DecodeError::BufferTooSmall)
            } else if h.template_count > lim.max_templates || h.string_count > lim.max_strings {
                Err(DecodeError::ResourceLimitExceeded)
            } else {
                match parse_strtab(pay, 16, h.string_count as int) {
                    Err(e) => Err(e),
                    Ok((strings, i1)) => match parse_templates(pay, i1, h.template_count as int) {
                        Err(e) => Err(e),
                        Ok((templates, i2)) => match check_templates_from(
                            templates,
                            0,
                            strings.len() as int,
                            lim,
                        ) {
                            Err(e) => Err(e),
                            Ok(_) => match parse_ops(pay, i2, h.opcode_count as int) {
                                Err(e) => Err(e),
                                Ok((ops, i3)) => if i3 != pay.len() {
                                    Err(DecodeError::BufferTooSmall)
                                } else {
                                    match validate_ops(
                                        templates,
                                        strings.len() as int,
                                        lim,
                                        ops,
                                    ) {
                                        Err(e) => Err(e),
                                        Ok(_) => Ok(StreamV { strings, templates, ops }),
                                    }
                                },
                            },
                        },
                    },
                }
            }
        }
    }
}

/// Serialize a payload into one signed stream: `signature(64) ‖ header(16)
/// ‖ string table ‖ template table ‖ opcode stream`, with the signature a
/// detached Ed25519 signature over everything after it.
///
/// Fails with `InvalidInput` exactly when the payload breaks a rule the
/// decoder would reject: an out-of-range reference, an unbalanced batch, an
/// instance used before its `Instantiate`, non-dense template ids, or a
/// section that exceeds a cap or the wire's own field widths.
pub fn encode(
    strings: &StringTable,
    templates: &Vec<TemplateDef>,
    operations: &Vec<Operation>,
    signing_key: &[u8],
    lim: &Limits,
) -> (r: Result<Vec<u8>, EncodeError>)
    requires
        signing_key@.len() == 32,
    ensures
        ({
            let sv = StreamV {
                strings: strings.view_spec(),
                templates: templates_view(templates@),
                ops: operations@,
            };
            &&& (r matches Ok(bytes) ==> encode_ok(sv, *lim) && bytes@ == ed25519_sign_of(
                signing_key@,
                ser_payload(sv),
            ) + ser_payload(sv) && ed25519_verifies(
                ed25519_pubkey_of(signing_key@),
                ser_payload(sv),
                ed25519_sign_of(signing_key@, ser_payload(sv)),
            ))
            &&& (r matches Err(e) ==> !encode_ok(sv, *lim) && e == EncodeError::InvalidInput)
        }),
{
    let ghost sv = StreamV {
        strings: strings.view_spec(),
        templates: templates_view(templates@),
        ops: operations@,
    };
    // wire-width checks for the string section
    if strings.entries.len() as u64 > lim.max_strings as u64 {
        return Err(EncodeError::InvalidInput);
    }
    let mut blob_total: u64 = 0;
    let mut k: usize = 0;
    proof {
        crate::strtab::lemma_blob_len(sv.strings);
    }
    while k < strings.entries.len()
        invariant
            k <= strings.entries@.len(),
            sv.strings == strings_view(strings.entries@),
            blob_total == crate::strtab::offset_of(sv.strings, k as int),
            forall|j: int| 0 <= j < k ==> #[trigger] sv.strings[j].len() <= 0xFFFF,
            blob_total <= 0xFFFFFFFF,
        decreases strings.entries@.len() - k,
    {
        proof {
            assert(sv.strings[k as int] == strings.entries@[k as int]@);
        }
        if strings.entries[k].len() > 0xFFFF {
            return Err(EncodeError::InvalidInput);
        }
        if blob_total + strings.entries[k].len() as u64 > 0xFFFFFFFF {
            proof {
                crate::strtab::lemma_blob_len(sv.strings);
                crate::strtab::lemma_offset_le(sv.strings, k as int + 1, sv.strings.len() as int);
            }
            return Err(EncodeError::InvalidInput);
        }
        blob_total = blob_total + strings.entries[k].len() as u64;
        k = k + 1;
    }
    proof {
        crate::strtab::lemma_blob_len(sv.strings);
        assert(strings_fit(sv.strings));
    }
    // template checks
    if templates.len() as u64 > lim.max_templates as u64 {
        return Err(EncodeError::InvalidInput);
    }
    let mut t: usize = 0;
    while t < templates.len()
        invariant
            t <= templates@.len(),
            sv.templates == templates_view(templates@),
            forall|j: int| 0 <= j < t ==> crate::tmpltab::template_fits(#[trigger] sv.templates[j]),
        decreases templates@.len() - t,
    {
        proof {
            assert(sv.templates[t as int] == templates@[t as int]@);
        }
        if templates[t].bindings.len() > 0xFFFF {
            return Err(EncodeError::InvalidInput);
        }
        let mut bj: usize = 0;
        while bj < templates[t].bindings.len()
            invariant
                t < templates@.len(),
                bj <= templates@[t as int].bindings@.len(),
                sv.templates == templates_view(templates@),
                forall|j: int|
                    0 <= j < bj ==> (#[trigger] sv.templates[t as int].bindings[j]).path.len()
                        <= 0xFF,
            decreases templates@[t as int].bindings@.len() - bj,
        {
            proof {
                assert(sv.templates[t as int] == templates@[t as int]@);
                assert(sv.templates[t as int].bindings[bj as int] == templates@[
                    t as int].bindings@[bj as int]@);
            }
            if templates[t].bindings[bj].path.len() > 0xFF {
                proof {
                    assert((sv.templates[t as int].bindings[bj as int]).path.len() > 0xFF);
                    assert(!crate::tmpltab::template_fits(sv.templates[t as int]));
                    assert(!templates_fit(sv.templates));
                }
                return Err(EncodeError::InvalidInput);
            }
            bj = bj + 1;
        }
        proof {
            assert(crate::tmpltab::template_fits(sv.templates[t as int]));
        }
        t = t + 1;
    }
    proof {
        assert(templates_fit(sv.templates));
    }
    let n_strings: u32 = strings.entries.len() as u32;
    match check_templates_exec(templates, n_strings, lim) {
        Err(_) => {
            return Err(EncodeError::InvalidInput);
        },
        Ok(_) => {
        },
    }
    if operations.len() as u64 > 0xFFFFFFFFu64 {
        return Err(EncodeError::InvalidInput);
    }
    match validate_ops_exec(templates, n_strings, lim, operations) {
        Err(_) => {
            return Err(EncodeError::InvalidInput);
        },
        Ok(_) => {
        },
    }
    // build the sections
    let mut body: Vec<u8> = Vec::new();
    write_strtab(&mut body, &strings.entries);
    write_templates(&mut body, templates);
    write_ops(&mut body, operations);
    if body.len() as u64 > 0xFFFFFFFFu64 {
        return Err(EncodeError::InvalidInput);
    }
    if 64u64 + 16u64 + body.len() as u64 > lim.max_stream_size as u64 {
        return Err(EncodeError::InvalidInput);
    }
    let header = HtipHeader {
        magic: HEADER_MAGIC,
        version: HEADER_VERSION,
        flags: ((if strings.entries.len() > 0 {
            1u8
        } else {
            0u8
        }) | (if templates.len() > 0 {
            2u8
        } else {
            0u8
        })),
        template_count: templates.len() as u16,
        string_count: strings.entries.len() as u16,
        opcode_count: operations.len() as u32,
        payload_size: body.len() as u32,
    };
    proof {
        assert(header == header_of(sv));
    }
    let mut payload: Vec<u8> = Vec::new();
    write_header(&mut payload, &header);
    let mut body_moved = body;
    payload.append(&mut body_moved);
    proof {
        assert(payload@ =~= ser_payload(sv));
    }
    let sig = sign_detached(signing_key, payload.as_slice());
    let mut stream = sig;
    let mut payload_moved = payload;
    stream.append(&mut payload_moved);
    proof {
        assert(stream@ =~= ed25519_sign_of(signing_key@, ser_payload(sv)) + ser_payload(sv));
        assert(encode_ok(sv, *lim));
    }
    Ok(stream)
}

/// Decode one signed stream under a verifying key, as `decode_spec`
/// describes: envelope and signature first, then header, tables, opcode
/// stream, and the reference scan. No payload parsing happens when the
/// signature does not verify.
pub fn decode(bytes: &[u8], verifying_key: &[u8], lim: &Limits) -> (r: Result<
    DecodedStream,
    DecodeError,
>)
    requires
        verifying_key@.len() == 32,
    ensures
        r matches Ok(ds) ==> decode_spec(bytes@, verifying_key@, *lim) == Ok::<
            StreamV,
            DecodeError,
        >(ds@),
        r matches Err(e) ==> decode_spec(bytes@, verifying_key@, *lim) == Err::<
            StreamV,
            DecodeError,
        >(e),
{
    if bytes.len() < 80 {
        return Err(DecodeError::BufferTooSmall);
    }
    if bytes.len() as u64 > lim.max_stream_size as u64 {
        return Err(DecodeError::ResourceLimitExceeded);
    }
    let sig = slice_subrange(bytes, 0, 64);
    let pay = slice_subrange(bytes, 64, bytes.len());
    if !verify_detached(verifying_key, pay, sig) {
        return Err(DecodeError::InvalidSignature);
    }
    let h = read_header(pay, 0);
    if h.magic != HEADER_MAGIC {
        return Err(DecodeError::InvalidMagic);
    }
    if h.version != HEADER_VERSION {
        return Err(DecodeError::UnsupportedVersion);
    }
    if h.payload_size as u64 != (pay.len() - 16) as u64 {
        return Err(DecodeError::BufferTooSmall);
    }
    if h.template_count > lim.max_templates || h.string_count > lim.max_strings {
        return Err(DecodeError::ResourceLimitExceeded);
    }
    let (strings, i1) = match read_strtab(pay, 16, h.string_count) {
        Err(e) => {
            return Err(e);
        },
        Ok(p) => p,
    };
    let (templates, i2) = match read_templates(pay, i1, h.template_count) {
        Err(e) => {
            return Err(e);
        },
        Ok(p) => p,
    };
    let n_strings: u32 = strings.len() as u32;
    match check_templates_exec(&templates, n_strings, lim) {
        Err(e) => {
            return Err(e);
        },
        Ok(_) => {
        },
    }
    let (operations, i3) = match read_ops(pay, i2, h.opcode_count) {
        Err(e) => {
            return Err(e);
        },
        Ok(p) => p,
    };
    if i3 != pay.len() {
        return Err(DecodeError::BufferTooSmall);
    }
    match validate_ops_exec(&templates, n_strings, lim, &operations) {
        Err(e) => {
            return Err(e);
        },
        Ok(_) => {
        },
    }
    Ok(DecodedStream { strings, templates, operations })
}

/// Round trip: a stream assembled from any payload that passes the
/// encoder's checks decodes, under the signer's public key and the same
/// caps, to exactly that payload — equal strings, equal template shapes,
/// equal operation sequence.
#[verifier::rlimit(100)]
pub proof fn lemma_round_trip(sig: Seq<u8>, s: StreamV, pk: Seq<u8>, lim: Limits)
    requires
        encode_ok(s, lim),
        sig.len() == 64,
        ed25519_verifies(pk, ser_payload(s), sig),
    ensures
        decode_spec(sig + ser_payload(s), pk, lim) == Ok::<StreamV, DecodeError>(s),
{
    let pay = ser_payload(s);
    let b = sig + pay;
    let h = header_of(s);
    let shead = ser_header(h);
    let sstr = ser_strtab(s.strings);
    let stmp = ser_templates(s.templates);
    let sops = ser_ops(s.ops);
    assert(shead.len() == 16);
    assert(b.len() == 64 + pay.len());
    assert(b.subrange(0, 64) =~= sig);
    assert(b.subrange(64, b.len() as int) =~= pay);
    // the header parses back
    assert(pay.subrange(0, 16) =~= shead);
    lemma_parse_ser_header(pay, 0, h);
    // section boundaries
    let i1 = 16 + sstr.len() as int;
    let i2 = i1 + stmp.len() as int;
    let i3 = i2 + sops.len() as int;
    assert(pay.len() == i3);
    assert(pay.subrange(16, i1) =~= sstr);
    assert(pay.subrange(i1, i2) =~= stmp);
    assert(pay.subrange(i2, i3) =~= sops);
    lemma_parse_ser_strtab(pay, 16, s.strings);
    assert(h.string_count == s.strings.len());
    assert(parse_strtab(pay, 16, h.string_count as int) == Ok::<(Seq<Seq<u8>>, int), DecodeError>(
        (s.strings, i1),
    ));
    lemma_parse_ser_templates(pay, i1, s.templates);
    assert(h.template_count == s.templates.len());
    assert(parse_templates(pay, i1, h.template_count as int) == Ok::<
        (Seq<TemplateV>, int),
        DecodeError,
    >((s.templates, i2)));
    crate::opwire::lemma_parse_ser_ops(pay, i2, s.ops);
    assert(h.opcode_count == s.ops.len());
    assert(parse_ops(pay, i2, h.opcode_count as int) == Ok::<(Seq<Operation>, int), DecodeError>(
        (s.ops, i3),
    ));
    assert(h.payload_size == pay.len() - 16);
    assert(decode_spec(b, pk, lim) == Ok::<StreamV, DecodeError>(
        StreamV { strings: s.strings, templates: s.templates, ops: s.ops },
    ));
    assert(StreamV { strings: s.strings, templates: s.templates, ops: s.ops } == s);
}

} // verus!
