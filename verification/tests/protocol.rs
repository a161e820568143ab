use htip::protocol::DxBinaryError;
use htip::protocol::HtipPayload;
use htip::protocol::HtipHeader;
use htip::protocol::LEGACY_HEADER_SIZE;
use htip::protocol::LEGACY_VERSION;
use htip::protocol::MAGIC_BYTES;

#[test]
fn test_header_size() {
    assert_eq!(std::mem::size_of::<HtipHeader>(), LEGACY_HEADER_SIZE);
}

#[test]
fn test_header_alignment() {
    // Ensure proper alignment for zero-copy (at least 4 bytes)
    assert!(std::mem::align_of::<HtipHeader>() >= 4);
}

#[test]
fn test_header_new() {
    let header = HtipHeader::new();
    assert_eq!(&header.magic, &MAGIC_BYTES);
    assert_eq!(header.version, LEGACY_VERSION);
    assert!(header.verify().is_ok());
}

#[test]
fn test_header_verify_rejects() {
    let mut header = HtipHeader::new();
    header.magic[0] = 0;
    assert_eq!(header.verify(), Err(DxBinaryError::InvalidMagic));
    let mut header2 = HtipHeader::new();
    header2.version = 9;
    assert_eq!(header2.verify(), Err(DxBinaryError::UnsupportedVersion(9)));
}

#[test]
fn test_payload_estimate() {
    let mut payload = HtipPayload::new();
    assert_eq!(payload.estimate_size(), 0);
    payload.strings.push("hello".to_string());
    payload.strings.push("ab".to_string());
    // two strings: (5 + 4) + (2 + 4)
    assert_eq!(payload.estimate_size(), 15);
}
