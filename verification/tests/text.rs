use krec::error::{CombineError, DecodeError, EncodeError};
use krec::recording::{FrameRangeError, KRec};
use krec::schema::{
    ActuatorCommand, ActuatorConfig, ActuatorState, ImuValues, KRecFrame, KRecHeader,
};
use krec::text::{push_decimal, push_flag};

fn decimal_of(n: u64) -> String {
    let mut text = String::new();
    push_decimal(&mut text, n);
    text
}

fn sample() -> KRec {
    let mut header = KRecHeader::new(
        String::from("abc-123"),
        String::from("walk"),
        String::from("biped"),
        String::from("sn-7"),
        1000,
        2500,
    );
    header.add_actuator_config(ActuatorConfig::new(1, None, None, None, None, None));
    header.add_actuator_config(ActuatorConfig::new(
        12,
        None,
        None,
        None,
        None,
        Some(String::from("knee")),
    ));
    let mut recording = KRec::new(header);
    let mut first = KRecFrame::new(Some(100), Some(1), Some(4));
    first.add_actuator_state(ActuatorState::default());
    first.add_actuator_state(ActuatorState::default());
    first.set_imu_values(Some(ImuValues::default()));
    recording.add_frame(first);
    recording.add_frame(KRecFrame::new(Some(133), Some(2), Some(4)));
    let mut last = KRecFrame::new(Some(166), Some(3), Some(5));
    last.set_actuator_commands(Some(ActuatorCommand::default()));
    recording.add_frame(last);
    recording
}

#[test]
fn decimal_matches_the_usual_notation() {
    for n in [0u64, 1, 9, 10, 11, 99, 100, 101, 12345, 1_000_000, u32::MAX as u64, u64::MAX] {
        assert_eq!(decimal_of(n), format!("{}", n));
    }
    assert_eq!(decimal_of(18_446_744_073_709_551_615), "18446744073709551615");
    assert_eq!(decimal_of(1_000), "1000");
}

#[test]
fn decimal_is_appended() {
    let mut text = String::from("n=");
    push_decimal(&mut text, 42);
    push_flag(&mut text, true);
    push_flag(&mut text, false);
    assert_eq!(text, "n=42truefalse");
}

#[test]
fn recording_summary_text() {
    assert_eq!(
        sample().summary(),
        "KRec(frames=3, header=KRecHeader(uuid='abc-123', task='walk', robot_platform='biped', robot_serial='sn-7', configs=2))"
    );
    assert_eq!(
        KRec::new(KRecHeader::default()).summary(),
        "KRec(frames=0, header=KRecHeader(uuid='', task='', robot_platform='', robot_serial='', configs=0))"
    );
}

#[test]
fn frame_summary_text() {
    let recording = sample();
    assert_eq!(
        recording.frames()[0].summary(),
        "KRecFrame(video_timestamp=100, frame_number=1, inference_step=4, states=2, has_commands=false, has_imu=true)"
    );
    assert_eq!(
        recording.frames()[2].summary(),
        "KRecFrame(video_timestamp=166, frame_number=3, inference_step=5, states=0, has_commands=true, has_imu=false)"
    );
}

#[test]
fn report_head_text() {
    assert_eq!(
        sample().report_head(),
        "KRec Recording\n==============\n\nTask: walk\nRobot Platform: biped\nRobot Serial: sn-7\nUUID: abc-123\nStart Timestamp: 1000\nEnd Timestamp: 2500\n\nActuator Configs (2)\n----------------\n"
    );
}

#[test]
fn report_tail_text() {
    assert_eq!(
        sample().report_tail(),
        "\nFrames (3)\n------------\nTime range: 100 to 166\n\nFirst frame details:\n  Frame number: 1\n  Inference step: 4\n  Actuator states: 2\n  Has IMU values: yes\n"
    );
    assert_eq!(
        KRec::new(KRecHeader::default()).report_tail(),
        "\nFrames (0)\n------------\n"
    );
    let mut one = KRec::new(KRecHeader::default());
    let mut frame = KRecFrame::new(Some(5), None, None);
    frame.set_actuator_commands(Some(ActuatorCommand::default()));
    frame.set_imu_values(Some(ImuValues::default()));
    one.add_frame(frame);
    assert_eq!(
        one.report_tail(),
        "\nFrames (1)\n------------\nTime range: 5 to 5\n\nFirst frame details:\n  Frame number: 0\n  Inference step: 0\n  Actuator states: 0\n  Has actuator commands: yes\n  Has IMU values: yes\n"
    );
}

#[test]
fn frame_report_head_text() {
    assert_eq!(
        sample().frame_report_head(2),
        Ok(String::from(
            "Frame 2\n=========\n\nVideo timestamp: 166\nFrame number: 3\nInference step: 5\n\nActuator States (0)\n---------------\n"
        ))
    );
    assert_eq!(
        sample().frame_report_head(3),
        Err(FrameRangeError { index: 3, count: 3 })
    );
}

#[test]
fn config_label_text() {
    let recording = sample();
    assert_eq!(recording.header().actuator_configs[0].label(), "ID 1: ");
    assert_eq!(recording.header().actuator_configs[1].label(), "ID 12: knee ");
}

#[test]
fn frame_range_message_text() {
    assert_eq!(
        FrameRangeError { index: 3, count: 3 }.message(),
        "Frame number 3 out of range (0-2)"
    );
    assert_eq!(
        FrameRangeError { index: 0, count: 0 }.message(),
        "Frame number 0 out of range (the recording has no frame)"
    );
}

#[test]
fn error_messages_text() {
    assert_eq!(DecodeError::Truncated.message(), "the data ends before what it announces");
    assert_eq!(
        DecodeError::BadMagic.message(),
        "the data does not start with the expected signature"
    );
    assert_eq!(
        DecodeError::UnsupportedVersion { found: 513 }.message(),
        "unsupported format version 513"
    );
    assert_eq!(DecodeError::Malformed.message(), "a record is malformed");
    assert_eq!(DecodeError::InvalidText.message(), "a text is not valid UTF-8");
    assert_eq!(DecodeError::TrailingBytes.message(), "data follows the end");
    assert_eq!(
        EncodeError::HeaderTextTooLong.message(),
        "a text of the header is longer than 65535 bytes"
    );
    assert_eq!(
        EncodeError::ActuatorConfigTooLarge.message(),
        "an actuator config is larger than 65535 bytes"
    );
    assert_eq!(CombineError::EmptyVideo.message(), "the video is empty");
    assert_eq!(CombineError::UuidTooLong.message(), "the uuid is longer than 65535 bytes");
    assert_eq!(CombineError::TaskTooLong.message(), "the task is longer than 65535 bytes");
}
