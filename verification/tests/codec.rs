use ed25519_dalek::Signer;
use htip::codec::decode;
use htip::codec::encode;
use htip::crypto::derive_verifying_key;
use htip::dispatch::HostCall;
use htip::dispatch::dispatch;
use htip::strtab::StringTable;
use htip::tmpltab::html_fragment_ok;
use htip::wire::Binding;
use htip::wire::BindingType;
use htip::wire::BatchCommit;
use htip::wire::BatchStart;
use htip::wire::DecodeError;
use htip::wire::Instantiate;
use htip::wire::Limits;
use htip::wire::Operation;
use htip::wire::PatchAttr;
use htip::wire::PatchText;
use htip::wire::TemplateDef;
use htip::wire::TemplateRef;

fn seed() -> Vec<u8> {
    vec![7u8; 32]
}

fn demo_payload() -> (StringTable, Vec<TemplateDef>, Vec<Operation>) {
    let mut strings = StringTable::new();
    let html = strings.intern(b"<div>X</div>".to_vec()) as u32;
    let hello = strings.intern(b"hello".to_vec()) as u32;
    let templates = vec![TemplateDef {
        id: 0,
        html_string_id: html,
        bindings: vec![Binding { slot_id: 0, binding_type: BindingType::Text, path: vec![0] }],
    }];
    let ops = vec![
        Operation::TemplateDef(TemplateRef { template_id: 0 }),
        Operation::Instantiate(Instantiate { instance_id: 1, template_id: 0, parent_id: 0 }),
        Operation::PatchText(PatchText { instance_id: 1, slot_id: 0, string_id: hello }),
    ];
    (strings, templates, ops)
}

#[test]
fn round_trip_define_instantiate_patch() {
    let (strings, templates, ops) = demo_payload();
    let lim = Limits::new();
    let sk = seed();
    let bytes = encode(&strings, &templates, &ops, &sk, &lim).unwrap();
    let vk = derive_verifying_key(&sk);
    let decoded = decode(&bytes, &vk, &lim).unwrap();
    assert_eq!(decoded.strings, strings.entries);
    assert_eq!(decoded.templates, templates);
    assert_eq!(decoded.operations, ops);
}

#[test]
fn dispatch_define_instantiate_patch() {
    let (strings, templates, ops) = demo_payload();
    let (calls, err) = dispatch(&templates, strings.entries.len() as u32, &Limits::new(), &ops);
    assert!(err.is_none());
    assert_eq!(
        calls,
        vec![
            HostCall::RegisterTemplate { template_id: 0 },
            HostCall::CloneTemplate { instance_id: 1, template_id: 0, parent_id: 0 },
            HostCall::SetText { instance_id: 1, slot_id: 0, string_id: 1 },
        ]
    );
}

#[test]
fn empty_stream_decodes_and_dispatches_nothing() {
    let strings = StringTable::new();
    let templates: Vec<TemplateDef> = Vec::new();
    let ops: Vec<Operation> = Vec::new();
    let lim = Limits::new();
    let sk = seed();
    let bytes = encode(&strings, &templates, &ops, &sk, &lim).unwrap();
    let vk = derive_verifying_key(&sk);
    let decoded = decode(&bytes, &vk, &lim).unwrap();
    assert!(decoded.strings.is_empty());
    assert!(decoded.templates.is_empty());
    assert!(decoded.operations.is_empty());
    let (calls, err) = dispatch(&decoded.templates, 0, &lim, &decoded.operations);
    assert!(calls.is_empty());
    assert!(err.is_none());
}

#[test]
fn batched_updates_commit_together() {
    let mut strings = StringTable::new();
    let html = strings.intern(b"<div>X</div>".to_vec()) as u32;
    let a = strings.intern(b"a".to_vec()) as u32;
    let cls = strings.intern(b"cls".to_vec()) as u32;
    let red = strings.intern(b"red".to_vec()) as u32;
    let templates = vec![TemplateDef {
        id: 0,
        html_string_id: html,
        bindings: vec![
            Binding { slot_id: 0, binding_type: BindingType::Text, path: vec![0] },
            Binding {
                slot_id: 1,
                binding_type: BindingType::Attribute { attr_name_id: cls },
                path: vec![0],
            },
        ],
    }];
    let ops = vec![
        Operation::TemplateDef(TemplateRef { template_id: 0 }),
        Operation::Instantiate(Instantiate { instance_id: 1, template_id: 0, parent_id: 0 }),
        Operation::BatchStart(BatchStart { batch_id: 7 }),
        Operation::PatchText(PatchText { instance_id: 1, slot_id: 0, string_id: a }),
        Operation::PatchAttr(PatchAttr {
            instance_id: 1,
            slot_id: 1,
            attr_name_id: cls,
            value_id: red,
        }),
        Operation::BatchCommit(BatchCommit { batch_id: 7 }),
    ];
    let (calls, err) = dispatch(&templates, strings.entries.len() as u32, &Limits::new(), &ops);
    assert!(err.is_none());
    assert_eq!(
        calls,
        vec![
            HostCall::RegisterTemplate { template_id: 0 },
            HostCall::CloneTemplate { instance_id: 1, template_id: 0, parent_id: 0 },
            HostCall::BeginBatch { batch_id: 7 },
            HostCall::SetText { instance_id: 1, slot_id: 0, string_id: a },
            HostCall::SetAttr { instance_id: 1, slot_id: 1, attr_name_id: cls, value_id: red },
            HostCall::CommitBatch { batch_id: 7 },
        ]
    );
}

#[test]
fn batch_with_invalid_op_makes_no_calls_for_it() {
    let strings = StringTable::new();
    let templates: Vec<TemplateDef> = Vec::new();
    // the patch references instance 9, which was never instantiated
    let ops = vec![
        Operation::BatchStart(BatchStart { batch_id: 7 }),
        Operation::PatchText(PatchText { instance_id: 9, slot_id: 0, string_id: 0 }),
        Operation::BatchCommit(BatchCommit { batch_id: 7 }),
    ];
    let (calls, err) = dispatch(&templates, strings.entries.len() as u32, &Limits::new(), &ops);
    assert_eq!(err, Some(DecodeError::NodeNotFound));
    assert_eq!(calls, vec![HostCall::AbortBatch { batch_id: 7 }]);
}

#[test]
fn unbalanced_batch_is_rejected() {
    let strings = StringTable::new();
    let templates: Vec<TemplateDef> = Vec::new();
    let ops = vec![Operation::BatchStart(BatchStart { batch_id: 7 })];
    let lim = Limits::new();
    let sk = seed();
    let err = encode(&strings, &templates, &ops, &sk, &lim).unwrap_err();
    assert_eq!(err, htip::wire::EncodeError::InvalidInput);
}

#[test]
fn signature_tamper_is_rejected() {
    let (strings, templates, ops) = demo_payload();
    let lim = Limits::new();
    let sk = seed();
    let mut bytes = encode(&strings, &templates, &ops, &sk, &lim).unwrap();
    let vk = derive_verifying_key(&sk);
    let mid = bytes.len() / 2;
    bytes[mid] ^= 0x01;
    assert_eq!(decode(&bytes, &vk, &lim).unwrap_err(), DecodeError::InvalidSignature);
}

#[test]
fn wrong_key_is_rejected() {
    let (strings, templates, ops) = demo_payload();
    let lim = Limits::new();
    let sk = seed();
    let bytes = encode(&strings, &templates, &ops, &sk, &lim).unwrap();
    let other = derive_verifying_key(&vec![8u8; 32]);
    assert_eq!(decode(&bytes, &other, &lim).unwrap_err(), DecodeError::InvalidSignature);
}

#[test]
fn stream_size_cap_is_enforced() {
    let (strings, templates, ops) = demo_payload();
    let lim = Limits::new();
    let sk = seed();
    let bytes = encode(&strings, &templates, &ops, &sk, &lim).unwrap();
    let vk = derive_verifying_key(&sk);
    let mut tight = Limits::new();
    tight.max_stream_size = 100;
    assert_eq!(decode(&bytes, &vk, &tight).unwrap_err(), DecodeError::ResourceLimitExceeded);
}

#[test]
fn template_cap_is_enforced() {
    let (strings, templates, ops) = demo_payload();
    let lim = Limits::new();
    let sk = seed();
    let bytes = encode(&strings, &templates, &ops, &sk, &lim).unwrap();
    let vk = derive_verifying_key(&sk);
    let mut tight = Limits::new();
    tight.max_templates = 0;
    assert_eq!(decode(&bytes, &vk, &tight).unwrap_err(), DecodeError::ResourceLimitExceeded);
}

#[test]
fn dangling_reference_is_rejected_by_encoder() {
    let strings = StringTable::new();
    let templates: Vec<TemplateDef> = Vec::new();
    // instance 5 is patched but never instantiated
    let ops = vec![Operation::PatchText(PatchText { instance_id: 5, slot_id: 0, string_id: 0 })];
    let err = encode(&strings, &templates, &ops, &seed(), &Limits::new()).unwrap_err();
    assert_eq!(err, htip::wire::EncodeError::InvalidInput);
}

#[test]
fn truncated_stream_is_rejected() {
    let lim = Limits::new();
    let vk = derive_verifying_key(&seed());
    assert_eq!(decode(&[0u8; 10], &vk, &lim).unwrap_err(), DecodeError::BufferTooSmall);
}

#[test]
fn interning_deduplicates() {
    let mut strings = StringTable::new();
    let a = strings.intern(b"alpha".to_vec());
    let b = strings.intern(b"beta".to_vec());
    let a2 = strings.intern(b"alpha".to_vec());
    assert_eq!(a, 0);
    assert_eq!(b, 1);
    assert_eq!(a2, a);
    assert_eq!(strings.len(), 2);
}

fn sign_raw(payload: &[u8]) -> Vec<u8> {
    let sk = ed25519_dalek::SigningKey::from_bytes(&[7u8; 32]);
    let mut stream = sk.sign(payload).to_bytes().to_vec();
    stream.extend_from_slice(payload);
    stream
}

fn raw_payload(ops: &[u8], op_count: u32) -> Vec<u8> {
    // header: magic "DX", version 2, flags 0, no templates, no strings
    let mut payload = vec![0x58, 0x44, 2, 0, 0, 0, 0, 0];
    payload.extend_from_slice(&op_count.to_le_bytes());
    let size = (4 + ops.len()) as u32; // empty string blob + the ops
    payload.extend_from_slice(&size.to_le_bytes());
    payload.extend_from_slice(&[0, 0, 0, 0]); // empty string blob
    payload.extend_from_slice(ops);
    payload
}

#[test]
fn unclosed_batch_fails_decode_with_unbalanced_batch() {
    // a single BatchStart(7) and no commit
    let stream = sign_raw(&raw_payload(&[8, 7, 0, 0, 0], 1));
    let vk = derive_verifying_key(&vec![7u8; 32]);
    assert_eq!(
        decode(&stream, &vk, &Limits::new()).unwrap_err(),
        DecodeError::UnbalancedBatch
    );
}

#[test]
fn unknown_opcode_tag_fails_decode() {
    let stream = sign_raw(&raw_payload(&[0xFF], 1));
    let vk = derive_verifying_key(&vec![7u8; 32]);
    assert_eq!(
        decode(&stream, &vk, &Limits::new()).unwrap_err(),
        DecodeError::InvalidOpcode
    );
}

#[test]
fn wrong_magic_fails_decode() {
    let mut payload = raw_payload(&[], 0);
    payload[0] = 0;
    let stream = sign_raw(&payload);
    let vk = derive_verifying_key(&vec![7u8; 32]);
    assert_eq!(
        decode(&stream, &vk, &Limits::new()).unwrap_err(),
        DecodeError::InvalidMagic
    );
}

#[test]
fn html_check_accepts_and_rejects() {
    assert!(html_fragment_ok(b"<div>X</div>"));
    assert!(!html_fragment_ok(b"<div>X</div"));
    assert!(!html_fragment_ok(b">oops<"));
    assert!(!html_fragment_ok(b"<div><script>alert(1)</script></div>"));
    assert!(!html_fragment_ok(b"<a href=\"javascript:x()\">x</a>"));
}

#[test]
fn slot_path_depth_cap_is_enforced() {
    let mut strings = StringTable::new();
    let html = strings.intern(b"<div>X</div>".to_vec()) as u32;
    let templates = vec![TemplateDef {
        id: 0,
        html_string_id: html,
        bindings: vec![Binding {
            slot_id: 0,
            binding_type: BindingType::Text,
            path: vec![0; 33],
        }],
    }];
    let err = encode(&strings, &templates, &Vec::new(), &seed(), &Limits::new()).unwrap_err();
    assert_eq!(err, htip::wire::EncodeError::InvalidInput);
}
