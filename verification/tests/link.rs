use slam_rover::link::{decode_payload, publisher_command, terminate_command, PayloadError};
use slam_rover::robot::RobotBody;

#[test]
fn decode_payload_decodes_base64() {
    assert_eq!(decode_payload(b"aGVsbG8="), Ok(b"hello".to_vec()));
    assert_eq!(decode_payload(b"aGVsbG8gd29ybGR+Cg=="), Ok(b"hello world~\n".to_vec()));
    assert_eq!(decode_payload(b""), Ok(Vec::new()));
}

#[test]
fn decode_payload_rejects_invalid_base64() {
    assert_eq!(decode_payload(b"aGVsbG8*"), Err(PayloadError::InvalidBase64));
    assert_eq!(decode_payload(b"a"), Err(PayloadError::InvalidBase64));
    assert_eq!(decode_payload(b"aGVsbG8=\n"), Err(PayloadError::InvalidBase64));
}

#[test]
fn publisher_commands() {
    assert_eq!(publisher_command(true), "start_publisher");
    assert_eq!(publisher_command(false), "pause_publisher");
    assert_eq!(terminate_command(), "terminate");
}

#[test]
fn camera_height() {
    assert_eq!(RobotBody::get_cam_height(), 105);
}
