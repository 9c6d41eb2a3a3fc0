use vm_instance::codec::{EntryHeader, Header, ENTRY_HEADER_SIZE, HEADER_SIZE};
use vm_instance::endian::{read_le, write_le};
use vm_instance::locator::{PvmfwEntry, Slot, PVMFW_UUID};
use vm_instance::record::{DiceMode, EntryBody, PartialInputs, ENTRY_BODY_SIZE};
use vm_instance::tag::Uuid;

fn image_header(version: u16) -> Vec<u8> {
    let mut bytes = b"Android-VM-instance".to_vec();
    bytes.extend_from_slice(&version.to_le_bytes());
    bytes
}

fn sample_body(mode: DiceMode) -> EntryBody {
    let mut code_hash = [0u8; 32];
    let mut auth_hash = [0u8; 32];
    let mut salt = [0u8; 64];
    for i in 0..32 {
        code_hash[i] = i as u8;
        auth_hash[i] = 0x80 + i as u8;
    }
    for i in 0..64 {
        salt[i] = 0xff - i as u8;
    }
    EntryBody::new(&PartialInputs { code_hash, auth_hash, mode }, &salt)
}

#[test]
fn little_endian_numbers() {
    assert_eq!(write_le(0x0102, 2), vec![0x02, 0x01]);
    assert_eq!(write_le(1, 8), vec![1, 0, 0, 0, 0, 0, 0, 0]);
    assert_eq!(write_le(0x1234, 1), vec![0x34]);
    assert_eq!(write_le(7, 0), Vec::<u8>::new());
    assert_eq!(read_le(&[0x02, 0x01], 0, 2), 0x0102);
    assert_eq!(read_le(&[0xaa, 0x00, 0x02, 0xbb], 1, 2), 0x0200);
    assert_eq!(read_le(&[0xff; 16], 0, 16), u128::MAX);
    assert_eq!(read_le(&[1, 2, 3], 3, 0), 0);
    let value: u128 = 0x0123_4567_89ab_cdef_0011_2233_4455_6677;
    assert_eq!(write_le(value, 16), value.to_le_bytes().to_vec());
    assert_eq!(read_le(&value.to_le_bytes(), 0, 16), value);
}

#[test]
fn header_with_magic_and_version_one_is_valid() {
    let bytes = image_header(1);
    assert_eq!(bytes.len(), HEADER_SIZE);
    let header = Header::read_from_prefix(&bytes).unwrap();
    assert_eq!(header.version(), 1);
    assert!(header.is_valid());
}

#[test]
fn header_with_any_magic_byte_changed_is_invalid() {
    for at in 0..19 {
        for flip in [0x01u8, 0x20, 0x80, 0xff] {
            let mut bytes = image_header(1);
            bytes[at] ^= flip;
            let header = Header::read_from_prefix(&bytes).unwrap();
            assert!(!header.is_valid());
        }
    }
}

#[test]
fn header_with_another_version_is_invalid() {
    for version in [0u16, 2, 3, 0x0100, 0x0101, u16::MAX] {
        let header = Header::read_from_prefix(&image_header(version)).unwrap();
        assert_eq!(header.version(), version);
        assert!(!header.is_valid());
    }
}

#[test]
fn short_header_is_not_decoded() {
    let bytes = image_header(1);
    assert!(Header::read_from_prefix(&bytes[..20]).is_none());
    assert!(Header::read_from_prefix(&[]).is_none());
}

#[test]
fn uuid_agrees_with_the_uuid_crate() {
    for value in [
        0u128,
        1,
        PVMFW_UUID,
        0x0123_4567_89ab_cdef_0011_2233_4455_6677,
        u128::MAX,
        1 << 127,
    ] {
        let theirs = uuid::Uuid::from_u128(value);
        let ours = Uuid::from_u128(value);
        assert_eq!(ours.as_u128(), theirs.as_u128());
        assert_eq!(ours.to_u128_le(), theirs.to_u128_le());
        assert_eq!(ours.is_nil(), theirs.is_nil());
        assert_eq!(Uuid::from_u128_le(value).as_u128(), uuid::Uuid::from_u128_le(value).as_u128());
        assert_eq!(Uuid::from_u128_le(ours.to_u128_le()), ours);
    }
}

#[test]
fn uuid_byte_order() {
    let uuid = Uuid::from_u128(0x0102_0304_0506_0708_090a_0b0c_0d0e_0f10);
    assert_eq!(uuid.to_u128_le(), 0x100f_0e0d_0c0b_0a09_0807_0605_0403_0201);
    assert!(Uuid::from_u128(0).is_nil());
    assert!(!Uuid::from_u128(1).is_nil());
}

#[test]
fn entry_header_layout() {
    let header = EntryHeader::new(PvmfwEntry::uuid(), 157);
    let bytes = header.as_bytes();
    assert_eq!(bytes.len(), ENTRY_HEADER_SIZE);
    assert_eq!(
        &bytes[..16],
        &[
            0x90, 0xd2, 0x17, 0x4a, 0x03, 0x8a, 0x4b, 0xc6, 0xad, 0xf3, 0x82, 0x48, 0x48, 0xfc,
            0x58, 0x25
        ]
    );
    assert_eq!(&bytes[..16], uuid::Uuid::from_u128(PVMFW_UUID).as_bytes());
    assert_eq!(&bytes[16..], &[157, 0, 0, 0, 0, 0, 0, 0]);
    assert_eq!(header.payload_size(), 157);
    assert_eq!(header.uuid(), PvmfwEntry::uuid());
}

#[test]
fn entry_header_round_trip() {
    for (uuid, size) in
        [(0u128, 0usize), (PVMFW_UUID, 157), (u128::MAX, usize::MAX), (0x1234, 0x0102_0304)]
    {
        let header = EntryHeader::new(Uuid::from_u128(uuid), size);
        let mut bytes = header.as_bytes();
        bytes.extend_from_slice(&[0x5a; 40]);
        let decoded = EntryHeader::read_from_prefix(&bytes).unwrap();
        assert_eq!(decoded, header);
        assert_eq!(decoded.uuid().as_u128(), uuid);
        assert_eq!(decoded.payload_size(), size as u64);
    }
}

#[test]
fn entry_header_size_is_little_endian() {
    let mut bytes = vec![0u8; 24];
    bytes[0] = 0xaa;
    bytes[16] = 0x01;
    bytes[17] = 0x02;
    let header = EntryHeader::read_from_prefix(&bytes).unwrap();
    assert_eq!(header.payload_size(), 0x0201);
    assert_eq!(header.uuid, 0xaa);
    assert_eq!(header.uuid().as_u128(), 0xaa << 120);
}

#[test]
fn short_entry_header_is_not_decoded() {
    assert!(EntryHeader::read_from_prefix(&[0u8; 23]).is_none());
    assert!(EntryHeader::read_from_prefix(&[0u8; 24]).is_some());
}

#[test]
fn slots_by_tag() {
    assert_eq!(EntryHeader::new(Uuid::from_u128(0), 99).slot(), Slot::Free);
    assert_eq!(
        EntryHeader::new(PvmfwEntry::uuid(), 99).slot(),
        Slot::Owned { payload_size: 99 }
    );
    assert_eq!(
        EntryHeader::new(Uuid::from_u128(PVMFW_UUID + 1), 7).slot(),
        Slot::Foreign { payload_size: 7 }
    );
    assert_eq!(
        EntryHeader::new(Uuid::from_u128(PVMFW_UUID.swap_bytes()), 7).slot(),
        Slot::Foreign { payload_size: 7 }
    );
}

#[test]
fn body_layout() {
    let body = sample_body(DiceMode::Debug);
    let bytes = body.as_bytes();
    assert_eq!(bytes.len(), ENTRY_BODY_SIZE);
    assert_eq!(bytes.len(), 129);
    assert_eq!(&bytes[..32], &body.code_hash);
    assert_eq!(&bytes[32..64], &body.auth_hash);
    assert_eq!(&bytes[64..128], &body.salt);
    assert_eq!(bytes[128], 2);
}

#[test]
fn body_round_trip() {
    for mode in [DiceMode::NotInitialized, DiceMode::Normal, DiceMode::Debug, DiceMode::Maintenance]
    {
        let body = sample_body(mode);
        let decoded = EntryBody::read_from(&body.as_bytes()).unwrap();
        assert_eq!(decoded, body);
        assert_eq!(decoded.mode(), mode);
    }
}

#[test]
fn body_of_wrong_size_is_rejected() {
    let bytes = sample_body(DiceMode::Normal).as_bytes();
    assert!(EntryBody::read_from(&bytes[..128]).is_none());
    assert!(EntryBody::read_from(&[]).is_none());
    let mut longer = bytes.clone();
    longer.push(0);
    assert!(EntryBody::read_from(&longer).is_none());
}

#[test]
fn mode_bytes() {
    let modes = [
        (0u8, DiceMode::NotInitialized),
        (1, DiceMode::Normal),
        (2, DiceMode::Debug),
        (3, DiceMode::Maintenance),
    ];
    for (byte, mode) in modes {
        let body = sample_body(mode);
        assert_eq!(body.mode, byte);
        assert_eq!(body.mode(), mode);
    }
}

#[test]
fn unknown_mode_byte_reads_as_not_initialized() {
    for byte in [4u8, 5, 0x7f, 0x80, 0xff] {
        let mut bytes = sample_body(DiceMode::Normal).as_bytes();
        bytes[128] = byte;
        let body = EntryBody::read_from(&bytes).unwrap();
        assert_eq!(body.mode, byte);
        assert_eq!(body.mode(), DiceMode::NotInitialized);
        assert_eq!(body.as_bytes(), bytes);
    }
}
