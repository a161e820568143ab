use htip::wire::DecodeError;
use htip::wire::OpcodeV1;

#[test]
fn test_opcode_conversion() {
    for i in 0x01u8..=0x0Bu8 {
        let opcode = OpcodeV1::from_u8(i).unwrap();
        assert_eq!(opcode.to_u8(), i);
    }
}

#[test]
fn test_opcode_size() {
    // Ensure opcode is 1 byte
    assert_eq!(std::mem::size_of::<OpcodeV1>(), 1);
}

#[test]
fn test_invalid_opcode() {
    assert!(OpcodeV1::from_u8(0x00).is_none());
    assert!(OpcodeV1::from_u8(0xFF).is_none());
}

#[test]
fn test_error_codes() {
    assert_eq!(DecodeError::InvalidMagic.code(), 1);
    assert_eq!(DecodeError::UnsupportedVersion.code(), 2);
    assert_eq!(DecodeError::InvalidOpcode.code(), 3);
    assert_eq!(DecodeError::TemplateNotFound.code(), 4);
    assert_eq!(DecodeError::StringOutOfBounds.code(), 5);
    assert_eq!(DecodeError::NodeNotFound.code(), 6);
    assert_eq!(DecodeError::BufferTooSmall.code(), 7);
    assert_eq!(DecodeError::InvalidSignature.code(), 8);
    assert_eq!(DecodeError::UnbalancedBatch.code(), 9);
    assert_eq!(DecodeError::ResourceLimitExceeded.code(), 10);
    assert_eq!(DecodeError::PatchCorrupt.code(), 11);
}
