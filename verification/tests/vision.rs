use rm_proto::vision::Custom2Robot;
use rm_proto::ImplCommandMsg;

#[test]
fn test_command_id() {
    assert_eq!(Custom2Robot::CMD_ID, 0x0302);
    assert_eq!(Custom2Robot::PAYLOAD_SIZE, 30);
}
