use rm_proto::{Messager, UnPackError, Validator};

struct XorValidator;

impl Validator for XorValidator {
    fn calculate_crc8(raw: &[u8]) -> u8 {
        raw.iter().fold(0, |a, b| a ^ b)
    }

    fn calculate_crc16(raw: &[u8]) -> u16 {
        raw.iter().fold(0u16, |a, b| a.wrapping_add(*b as u16))
    }
}

#[test]
fn custom_validator_frames() {
    let msger = Messager::<XorValidator>::new(0);
    let frame = [0xA5, 0x00, 0x00, 0x01, 0xA4, 0x01, 0x00, 0x4B, 0x01];
    let (raw, n) = msger.unpack(&frame).unwrap();
    assert_eq!(n, 9);
    assert_eq!(raw.cmd_id(), 1);
    assert_eq!(raw.sequence(), 1);
    let mut bad = frame;
    bad[4] = 0;
    assert!(matches!(msger.unpack(&bad), Err(UnPackError::InvalidChecksum { at: 5 })));
}
