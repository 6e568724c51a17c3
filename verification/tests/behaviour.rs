use rm_proto::serial::buff::RobotBuff;
use rm_proto::serial::hurt::{HurtData, Reason};
use rm_proto::serial::result::GameResult;
use rm_proto::serial::states::GameStatus;
use rm_proto::serial::warning::RefereeWarning;
use rm_proto::vision::Custom2Robot;
use rm_proto::{calc_dji16, calc_dji8};
use rm_proto::{DjiValidator, Marshaler, Messager, RemoteControl, SharedRemoteControl, Switch};
use rm_proto::{MarshalerError, PackError, UnPackError};

struct Oversized;

impl Marshaler for Oversized {
    const CMD_ID: u16 = 0x0001;
    const PAYLOAD_SIZE: u16 = 2;

    fn marshal(&self, _dst: &mut [u8]) -> Result<usize, MarshalerError> {
        Ok(70000)
    }

    fn unmarshal(_src: &[u8]) -> Result<Self, MarshalerError> {
        Ok(Self)
    }
}

struct Failing;

impl Marshaler for Failing {
    const CMD_ID: u16 = 0x0002;
    const PAYLOAD_SIZE: u16 = 1;

    fn marshal(&self, _dst: &mut [u8]) -> Result<usize, MarshalerError> {
        Err(MarshalerError::BufferTooSmall { need: 2 })
    }

    fn unmarshal(_src: &[u8]) -> Result<Self, MarshalerError> {
        Err(MarshalerError::InvalidData { field: 7 })
    }
}

#[test]
fn crc_of_empty_input_is_initial_value() {
    assert_eq!(calc_dji8(&[]), 0xFF);
    assert_eq!(calc_dji16(&[]), 0xFFFF);
}

#[test]
fn crc_of_header_bytes() {
    assert_eq!(calc_dji8(&[0xA5, 0x05, 0x00, 0x56]), 0xF0);
    assert_eq!(
        calc_dji16(&[0xA5, 0x05, 0x00, 0x56, 0xF0, 0x34, 0x12, 1, 2, 3, 4, 5]),
        0x7184
    );
}

#[test]
fn message_survives_pack_and_unmarshal() {
    let mut msger = Messager::<DjiValidator>::new(9);
    let msg = RobotBuff::new(1, 0xBEEF, 2, 3, 0x1234, 0x80);
    let mut buf = [0u8; 32];
    let n = msger.pack(&msg, &mut buf).unwrap();
    assert_eq!(n, 17);
    let (back, consumed): (RobotBuff, usize) = msger.unmarshal(&buf).unwrap();
    assert_eq!(consumed, 17);
    assert_eq!(back.cooling_value(), 0xBEEF);
    assert_eq!(back.attack_rate(), 0x1234);
    assert_eq!(back.remain_energy(), 0x80);
}

#[test]
fn trailing_bytes_do_not_change_decoding() {
    let mut msger = Messager::<DjiValidator>::new(3);
    let msg = GameResult::new(rm_proto::serial::result::Winner::Red);
    let mut buf = [0xEEu8; 20];
    let n = msger.pack(&msg, &mut buf).unwrap();
    let (a, na) = msger.unpack(&buf[..n]).unwrap();
    let (b, nb) = msger.unpack(&buf).unwrap();
    assert_eq!(na, nb);
    assert_eq!(a.payload(), b.payload());
    assert_eq!(a.sequence(), 3);
    assert_eq!(b.cmd_id(), 0x0002);
    assert_eq!(&buf[n..], &[0xEEu8; 10][..]);
}

#[test]
fn failed_pack_keeps_sequence() {
    let mut msger = Messager::<DjiValidator>::new(5);
    let mut small = [0u8; 4];
    assert!(matches!(
        msger.pack(&GameResult::new(rm_proto::serial::result::Winner::Draw), &mut small),
        Err(PackError::BufferTooSmall { need: 10 })
    ));
    let mut buf = [0u8; 16];
    assert!(matches!(
        msger.pack(&Oversized, &mut buf),
        Err(PackError::InputTooLarge { max: 65535 })
    ));
    assert!(matches!(
        msger.pack(&Failing, &mut buf),
        Err(PackError::MarshalerError(MarshalerError::BufferTooSmall { need: 2 }))
    ));
    let n = msger.pack(&GameResult::new(rm_proto::serial::result::Winner::Draw), &mut buf).unwrap();
    let (frame, _) = msger.unpack(&buf[..n]).unwrap();
    assert_eq!(frame.sequence(), 5);
}

#[test]
fn pack_marshaled_completes_frame() {
    let mut msger = Messager::<DjiValidator>::new(0x56);
    let mut buf = [0u8; 14];
    buf[7..12].copy_from_slice(&[1, 2, 3, 4, 5]);
    assert_eq!(msger.pack_marshaled(0x1234, 5, Ok(5), &mut buf).unwrap(), 14);
    assert_eq!(
        buf,
        [0xA5, 0x5, 0x0, 0x56, 0xF0, 0x34, 0x12, 0x1, 0x2, 0x3, 0x4, 0x5, 0x84, 0x71]
    );
    let before = buf;
    assert!(matches!(
        msger.pack_marshaled(0x1234, 5, Ok(4), &mut buf),
        Err(PackError::InvalidPayloadSize { expected: 5, found: 4 })
    ));
    assert!(matches!(
        msger.pack_marshaled(0x1234, 5, Err(MarshalerError::InvalidData { field: 1 }), &mut buf),
        Err(PackError::MarshalerError(MarshalerError::InvalidData { field: 1 }))
    ));
    assert_eq!(buf, before);
}

#[test]
fn unmarshal_reports_payload_errors() {
    let mut msger = Messager::<DjiValidator>::new(0);
    let mut buf = [0u8; 16];
    let n = msger.pack(&GameResult::new(rm_proto::serial::result::Winner::Blue), &mut buf).unwrap();
    let wrong: Result<(RobotBuff, usize), UnPackError> = msger.unmarshal(&buf[..n]);
    assert!(matches!(
        wrong,
        Err(UnPackError::MarshalerError(MarshalerError::InvalidCmdID { expected: 0x0204, found: 0x0002 }))
    ));
    assert_eq!(wrong.err().unwrap().skip(), 0);
    let failing: Result<(Failing, usize), UnPackError> = msger.unmarshal(&buf[..n]);
    assert!(matches!(
        failing,
        Err(UnPackError::MarshalerError(MarshalerError::InvalidData { field: 7 }))
    ));
    let truncated: Result<(GameResult, usize), UnPackError> = msger.unmarshal(&buf[..n - 1]);
    assert!(matches!(truncated, Err(UnPackError::UnexpectedEnd { read: 9 })));
}

#[test]
fn empty_input_has_no_header() {
    let msger = Messager::<DjiValidator>::new(0);
    assert!(matches!(msger.unpack(&[]), Err(UnPackError::MissingHeader { skip: 0 })));
}

#[test]
fn invalid_field_values_are_rejected() {
    assert!(matches!(GameResult::unmarshal(&[3]), Err(MarshalerError::InvalidData { field: 0 })));
    assert!(matches!(RefereeWarning::unmarshal(&[0, 1, 1]), Err(MarshalerError::InvalidData { field: 0 })));
    assert!(matches!(HurtData::unmarshal(&[0x21]), Err(MarshalerError::InvalidData { field: 0 })));
    let mut status = [0u8; 11];
    status[0] = 0x40;
    assert!(matches!(GameStatus::unmarshal(&status), Err(MarshalerError::InvalidData { field: 0 })));
    status[0] = 0x61;
    assert!(matches!(GameStatus::unmarshal(&status), Err(MarshalerError::InvalidData { field: 1 })));
    status[0] = 0x51;
    assert!(GameStatus::unmarshal(&status).is_ok());
}

#[test]
fn hurt_armor_id_keeps_low_nibble() {
    let hurt = HurtData::new(0x13, Reason::StruckByImpact);
    let mut buf = [0u8; 1];
    hurt.marshal(&mut buf).unwrap();
    assert_eq!(buf[0], 0x53);
    let back = HurtData::unmarshal(&buf).unwrap();
    assert_eq!(back.armor_id(), 3);
    assert_eq!(back.deduction_reason(), Reason::StruckByImpact);
}

#[test]
fn custom_command_decodes_joints_and_gripper() {
    let mut raw = [0u8; 30];
    for i in 0..6 {
        raw[4 * i..4 * i + 4].copy_from_slice(&(i as f32 + 0.5).to_le_bytes());
    }
    raw[24] = 1;
    let cmd = <Custom2Robot as rm_proto::ImplUnMarshal>::unmarshal(&raw).unwrap();
    let joints = cmd.joint_bits();
    for i in 0..6 {
        assert_eq!(f32::from_bits(joints[i]), i as f32 + 0.5);
    }
    assert!(cmd.get_gripper());
}

fn rc_frame(group1: u64, group2: u64, keys: u16) -> [u8; 21] {
    let mut f = [0u8; 21];
    f[0] = 0xA9;
    f[1] = 0x53;
    f[2..10].copy_from_slice(&group1.to_le_bytes());
    f[10..17].copy_from_slice(&group2.to_le_bytes()[..7]);
    f[17..19].copy_from_slice(&keys.to_le_bytes());
    let crc = calc_dji16(&f[..19]);
    f[19..21].copy_from_slice(&crc.to_le_bytes());
    f
}

#[test]
fn remote_control_decodes_frame() {
    let group1: u64 = 1684
        | (364 << 11)
        | (1024 << 22)
        | (1500 << 33)
        | (2 << 44)
        | (1 << 47)
        | (1030 << 49)
        | (1 << 60);
    let group2: u64 = 0xFFFB | (7 << 16) | (0x8000 << 32) | (1 << 48) | (2 << 52);
    let keys: u16 = 0b1000_0000_0001_0001;
    let frame = rc_frame(group1, group2, keys);
    let mut rc = RemoteControl::<DjiValidator>::new();
    assert_eq!(rc.update(&frame).unwrap(), 21);
    assert_eq!(rc.right_horizontal(), 660);
    assert_eq!(rc.right_vertical(), -660);
    assert_eq!(rc.left_vertical(), 0);
    assert_eq!(rc.left_horizontal(), 476);
    assert_eq!(rc.switch(), Switch::S);
    assert!(!rc.pause());
    assert!(rc.left_fn());
    assert!(!rc.right_fn());
    assert_eq!(rc.wheel(), 6);
    assert!(rc.trigger());
    assert_eq!(rc.mouse_vx(), -5);
    assert_eq!(rc.mouse_vy(), 7);
    assert_eq!(rc.mouse_vz(), -32768);
    assert!(rc.left_button());
    assert!(!rc.right_button());
    assert!(rc.mid_button());
    assert!(rc.keyboard_w());
    assert!(!rc.keyboard_s());
    assert!(rc.keyboard_shift());
    assert!(rc.keyboard_b());
    assert!(!rc.keyboard_v());
    let copy = rc.clone();
    assert_eq!(copy.wheel(), 6);
}

#[test]
fn remote_control_rejects_bad_frames() {
    let good = rc_frame(1024 | (1 << 46), 0, 0x0002);
    let mut rc = RemoteControl::<DjiValidator>::default();
    rc.update(&good).unwrap();
    assert!(matches!(rc.update(&good[..20]), Err(UnPackError::UnexpectedEnd { read: 20 })));
    let mut bad_sof = good;
    bad_sof[0] = 0xA5;
    assert!(matches!(rc.update(&bad_sof), Err(UnPackError::MissingHeader { skip: 21 })));
    let mut bad_crc = good;
    bad_crc[5] ^= 0xFF;
    assert!(matches!(rc.update(&bad_crc), Err(UnPackError::InvalidChecksum { at: 19 })));
    assert!(rc.pause());
    assert!(rc.keyboard_s());
    assert_eq!(rc.right_horizontal(), 0);
    assert_eq!(rc.switch(), Switch::C);
}

#[test]
fn shared_remote_control_publishes_accepted_frames() {
    let shared = SharedRemoteControl::<DjiValidator>::new();
    let frame = rc_frame(1684 | (1 << 60), 0x0003, 1 << 9);
    assert_eq!(shared.update(&frame).unwrap(), 21);
    let mut bad = frame;
    bad[19] ^= 1;
    assert!(matches!(shared.update(&bad), Err(UnPackError::InvalidChecksum { at: 19 })));
    let rc = shared.snapshot();
    assert_eq!(rc.right_horizontal(), 660);
    assert!(rc.trigger());
    assert_eq!(rc.mouse_vx(), 3);
    assert!(rc.keyboard_f());
    let copy = shared.clone();
    assert!(copy.snapshot().keyboard_f());
    assert_eq!(SharedRemoteControl::<DjiValidator>::default().snapshot().right_horizontal(), -1024);
}

#[test]
fn custom_command_reads_first_25_bytes() {
    let mut raw = [0u8; 25];
    raw[0..4].copy_from_slice(&1.5f32.to_le_bytes());
    raw[24] = 0;
    let cmd = <Custom2Robot as rm_proto::ImplUnMarshal>::unmarshal(&raw).unwrap();
    assert_eq!(f32::from_bits(cmd.joint_bits()[0]), 1.5);
    assert!(!cmd.get_gripper());
}
