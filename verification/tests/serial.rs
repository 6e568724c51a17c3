use rm_proto::serial::buff::RobotBuff;
use rm_proto::serial::dart::DartInfo;
use rm_proto::serial::event::GameEvent;
use rm_proto::serial::health::GameRobotHP;
use rm_proto::serial::hurt::{HurtData, Reason};
use rm_proto::serial::pos::RobotPos;
use rm_proto::serial::result::{GameResult, Winner};
use rm_proto::serial::states::{GameProgress, GameStatus, GameType};
use rm_proto::serial::warning::{Level, RefereeWarning};
use rm_proto::Marshaler;

#[test]
fn buff_test() {
    const SIZE: usize = RobotBuff::PAYLOAD_SIZE as usize;

    let buff = RobotBuff::new(10, 200, 5, 3, 1500, 80);

    let mut buf = [0u8; SIZE + 10];
    let sz = buff.marshal(&mut buf).unwrap();
    assert_eq!(sz, SIZE);

    let buff2 = RobotBuff::unmarshal(&buf[..SIZE]).unwrap();
    assert_eq!(buff2.recovery_rate(), 10);
    assert_eq!(buff2.cooling_value(), 200);
    assert_eq!(buff2.defence_rate(), 5);
    assert_eq!(buff2.vulnerability_rate(), 3);
    assert_eq!(buff2.attack_rate(), 1500);
    assert_eq!(buff2.remain_energy(), 80);
}

#[test]
fn dart_test() {
    const SIZE: usize = DartInfo::PAYLOAD_SIZE as usize;

    let status = DartInfo::new(120, 0x3456);

    let mut buf = [0u8; SIZE + 10];
    let sz = status.marshal(&mut buf).unwrap();
    assert_eq!(sz, SIZE);

    let decoded = DartInfo::unmarshal(&buf[..SIZE]).unwrap();
    assert_eq!(decoded.remaining_time(), 120);
    assert_eq!(decoded.dart_info(), 0x3456);
}

#[test]
fn event_test() {
    const SIZE: usize = GameEvent::PAYLOAD_SIZE as usize;

    let status = GameEvent::new(0x12345678);

    let mut buf = [0u8; SIZE + 10];
    let sz = status.marshal(&mut buf).unwrap();
    assert_eq!(sz, SIZE);

    let decoded = GameEvent::unmarshal(&buf[..SIZE]).unwrap();
    assert_eq!(decoded.event_data(), 0x12345678);
}

#[test]
fn health_test() {
    const SIZE: usize = GameRobotHP::PAYLOAD_SIZE as usize;

    let status = GameRobotHP::new(1000, 2000, 3000, 4000, 7000, 8000, 9000);

    let mut buf = [0u8; SIZE + 10];
    let sz = status.marshal(&mut buf).unwrap();
    assert_eq!(sz, SIZE);

    let decoded = GameRobotHP::unmarshal(&buf[..SIZE]).unwrap();
    assert_eq!(decoded.ally1_hp(), 1000);
    assert_eq!(decoded.ally2_hp(), 2000);
    assert_eq!(decoded.ally3_hp(), 3000);
    assert_eq!(decoded.ally4_hp(), 4000);
    assert_eq!(decoded.ally7_hp(), 7000);
    assert_eq!(decoded.outpost_hp(), 8000);
    assert_eq!(decoded.base_hp(), 9000);
}

#[test]
fn hurt_test() {
    const SIZE: usize = HurtData::PAYLOAD_SIZE as usize;

    let hurt = HurtData::new(3, Reason::ModuleOffline);

    let mut buf = [0u8; SIZE];
    let sz = hurt.marshal(&mut buf).unwrap();
    assert_eq!(sz, SIZE);
    assert_eq!(buf[0], 0x13);

    let hurt2 = HurtData::unmarshal(&buf).unwrap();
    assert_eq!(hurt2.armor_id(), 3);
    assert_eq!(hurt2.deduction_reason(), Reason::ModuleOffline);
}

#[test]
fn pos_test() {
    const SIZE: usize = RobotPos::PAYLOAD_SIZE as usize;

    let pos = RobotPos::from_bits(1.0f32.to_bits(), 2.0f32.to_bits(), 3.0f32.to_bits());

    let mut buf = [0u8; SIZE + 10];
    let sz = pos.marshal(&mut buf).unwrap();
    assert_eq!(sz, SIZE);

    let pos2 = RobotPos::unmarshal(&buf[..SIZE]).unwrap();
    assert_eq!(f32::from_bits(pos2.x_bits()), 1.0);
    assert_eq!(f32::from_bits(pos2.y_bits()), 2.0);
    assert_eq!(f32::from_bits(pos2.angle_bits()), 3.0);
}

#[test]
fn result_test() {
    const SIZE: usize = GameResult::PAYLOAD_SIZE as usize;

    let status = GameResult::new(Winner::Blue);

    let mut buf = [0u8; SIZE + 10];
    let sz = status.marshal(&mut buf).unwrap();
    assert_eq!(sz, SIZE);

    let decoded = GameResult::unmarshal(&buf[..SIZE]).unwrap();
    assert_eq!(decoded.winner(), Winner::Blue);
}

#[test]
fn states_test() {
    const SIZE: usize = GameStatus::PAYLOAD_SIZE as usize;

    let status = GameStatus::new(GameType::RMUA, GameProgress::InProgress, 1234, 1672531199);

    let mut buf = [0u8; SIZE + 10];
    let sz = status.marshal(&mut buf).unwrap();
    assert_eq!(sz, SIZE);

    let decoded = GameStatus::unmarshal(&buf[..SIZE]).unwrap();
    assert_eq!(decoded.game_type(), GameType::RMUA);
    assert_eq!(decoded.game_progress(), GameProgress::InProgress);
    assert_eq!(decoded.remaining_time_s(), 1234);
    assert_eq!(decoded.unix_timestamp(), 1672531199);
}

#[test]
fn warning_test() {
    const SIZE: usize = RefereeWarning::PAYLOAD_SIZE as usize;

    let warning = RefereeWarning::new(Level::RedCard, 5, 2);

    let mut buf = [0u8; SIZE + 10];
    let sz = warning.marshal(&mut buf).unwrap();
    assert_eq!(sz, SIZE);

    let decoded = RefereeWarning::unmarshal(&buf[..SIZE]).unwrap();
    assert_eq!(decoded.level(), Level::RedCard);
    assert_eq!(decoded.robot_id(), 5);
    assert_eq!(decoded.count(), 2);
}

#[test]
fn test_command_msg() {
    assert_eq!(GameStatus::CMD_ID, 0x0001);
    assert_eq!(GameStatus::PAYLOAD_SIZE, 11);

    assert_eq!(GameResult::CMD_ID, 0x0002);
    assert_eq!(GameResult::PAYLOAD_SIZE, 1);

    assert_eq!(GameRobotHP::CMD_ID, 0x0003);
    assert_eq!(GameRobotHP::PAYLOAD_SIZE, 16);

    assert_eq!(GameEvent::CMD_ID, 0x0101);
    assert_eq!(GameEvent::PAYLOAD_SIZE, 4);

    assert_eq!(RefereeWarning::CMD_ID, 0x0104);
    assert_eq!(RefereeWarning::PAYLOAD_SIZE, 3);

    assert_eq!(DartInfo::CMD_ID, 0x0105);
    assert_eq!(DartInfo::PAYLOAD_SIZE, 3);

    assert_eq!(RobotPos::CMD_ID, 0x0203);
    assert_eq!(RobotPos::PAYLOAD_SIZE, 12);

    assert_eq!(RobotBuff::CMD_ID, 0x0204);
    assert_eq!(RobotBuff::PAYLOAD_SIZE, 8);

    assert_eq!(HurtData::CMD_ID, 0x0206);
    assert_eq!(HurtData::PAYLOAD_SIZE, 1);
}
