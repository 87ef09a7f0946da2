use krec::recording::{FrameRangeError, KRec};
use krec::scalar::{Float32, Float64, ONE_BITS};
use krec::schema::{
    expect_count, ActuatorCommand, ActuatorConfig, ActuatorState, CountError, ImuQuaternion,
    ImuValues, KRecFrame, KRecHeader, Vec3,
};

fn wide(value: f64) -> Float64 {
    Float64::from_bits(value.to_bits())
}

fn narrow(value: f32) -> Float32 {
    Float32::from_bits(value.to_bits())
}

#[test]
fn float_fields_keep_their_bits() {
    assert_eq!(wide(0.5).to_bits(), 0x3FE0_0000_0000_0000);
    assert_eq!(narrow(1.0).to_bits(), 0x3F80_0000);
    assert_eq!(ONE_BITS, 1.0f64.to_bits());
    assert_eq!(f64::from_bits(wide(-2.25).to_bits()), -2.25);
    assert_ne!(wide(0.0), wide(-0.0));
}

#[test]
fn vec3_defaults_to_zero() {
    let v = Vec3::new(None, None, None);
    assert_eq!(v, Vec3::default());
    assert_eq!(f64::from_bits(v.x.bits), 0.0);
    assert_eq!(f64::from_bits(v.y.bits), 0.0);
    assert_eq!(f64::from_bits(v.z.bits), 0.0);
}

#[test]
fn vec3_takes_given_components() {
    let v = Vec3::new(Some(wide(1.0)), None, Some(wide(3.0)));
    assert_eq!(v, Vec3 { x: wide(1.0), y: wide(0.0), z: wide(3.0) });
}

#[test]
fn vec3_from_three_values() {
    let v = Vec3::from_values(&[wide(1.0), wide(2.0), wide(3.0)]);
    assert_eq!(v, Ok(Vec3 { x: wide(1.0), y: wide(2.0), z: wide(3.0) }));
}

#[test]
fn vec3_refuses_other_counts() {
    assert_eq!(
        Vec3::from_values(&[wide(1.0), wide(2.0)]),
        Err(CountError { expected: 3, found: 2 })
    );
    assert_eq!(Vec3::from_values(&[]), Err(CountError { expected: 3, found: 0 }));
    assert_eq!(
        Vec3::from_values(&[wide(1.0), wide(2.0), wide(3.0), wide(4.0)]),
        Err(CountError { expected: 3, found: 4 })
    );
}

#[test]
fn quaternion_defaults_to_identity() {
    let q = ImuQuaternion::new(None, None, None, None);
    assert_eq!(q, ImuQuaternion::default());
    assert_eq!(f64::from_bits(q.x.bits), 0.0);
    assert_eq!(f64::from_bits(q.y.bits), 0.0);
    assert_eq!(f64::from_bits(q.z.bits), 0.0);
    assert_eq!(f64::from_bits(q.w.bits), 1.0);
}

#[test]
fn quaternion_is_not_normalised() {
    let q = ImuQuaternion::new(Some(wide(2.0)), Some(wide(0.0)), Some(wide(0.0)), Some(wide(2.0)));
    assert_eq!(f64::from_bits(q.x.bits), 2.0);
    assert_eq!(f64::from_bits(q.w.bits), 2.0);
}

#[test]
fn quaternion_from_four_values() {
    let q = ImuQuaternion::from_values(&[wide(0.1), wide(0.2), wide(0.3), wide(0.4)]);
    assert_eq!(
        q,
        Ok(ImuQuaternion { x: wide(0.1), y: wide(0.2), z: wide(0.3), w: wide(0.4) })
    );
    assert_eq!(
        ImuQuaternion::from_values(&[wide(0.1), wide(0.2), wide(0.3)]),
        Err(CountError { expected: 4, found: 3 })
    );
}

#[test]
fn imu_members_are_independent() {
    let imu = ImuValues::new(None, Some(Vec3::default()), None, None);
    assert_eq!(imu.accel, None);
    assert_eq!(imu.gyro, Some(Vec3::default()));
    assert_eq!(imu.mag, None);
    assert_eq!(imu.quaternion, None);
    assert_eq!(ImuValues::default(), ImuValues::new(None, None, None, None));
}

#[test]
fn actuator_state_defaults() {
    let s = ActuatorState::new(7, None, None, None, None, None, None, None);
    assert_eq!(s.actuator_id, 7);
    assert!(!s.online);
    assert_eq!(s.position, None);
    assert_eq!(s.velocity, None);
    assert_eq!(s.torque, None);
    assert_eq!(s.temperature, None);
    assert_eq!(s.voltage, None);
    assert_eq!(s.current, None);
    assert_eq!(ActuatorState::default().actuator_id, 0);
}

#[test]
fn actuator_state_takes_given_members() {
    let s = ActuatorState::new(
        2,
        Some(true),
        Some(wide(0.5)),
        None,
        Some(wide(0.0)),
        None,
        Some(narrow(12.5)),
        None,
    );
    assert!(s.online);
    assert_eq!(s.position, Some(wide(0.5)));
    assert_eq!(s.torque, Some(wide(0.0)));
    assert_ne!(s.torque, None);
    assert_eq!(s.voltage, Some(narrow(12.5)));
}

#[test]
fn actuator_command_defaults_to_zero() {
    let c = ActuatorCommand::new(3, None, Some(narrow(1.5)), None);
    assert_eq!(c.actuator_id, 3);
    assert_eq!(f32::from_bits(c.position.bits), 0.0);
    assert_eq!(f32::from_bits(c.velocity.bits), 1.5);
    assert_eq!(f32::from_bits(c.effort.bits), 0.0);
    assert_eq!(ActuatorCommand::default(), ActuatorCommand::new(0, None, None, None));
}

#[test]
fn actuator_command_from_three_values() {
    let c = ActuatorCommand::from_values(4, &[narrow(1.0), narrow(2.0), narrow(3.0)]);
    assert_eq!(
        c,
        Ok(ActuatorCommand {
            actuator_id: 4,
            position: narrow(1.0),
            velocity: narrow(2.0),
            effort: narrow(3.0)
        })
    );
    assert_eq!(
        ActuatorCommand::from_values(4, &[narrow(1.0)]),
        Err(CountError { expected: 3, found: 1 })
    );
}

#[test]
fn actuator_config_keeps_what_is_given() {
    let c = ActuatorConfig::new(1, Some(wide(10.0)), None, None, None, Some(String::from("hip")));
    assert_eq!(c.actuator_id, 1);
    assert_eq!(c.kp, Some(wide(10.0)));
    assert_eq!(c.kd, None);
    assert_eq!(c.name.as_deref(), Some("hip"));
    let d = ActuatorConfig::default();
    assert_eq!(d.actuator_id, 0);
    assert_eq!(d.name, None);
}

#[test]
fn header_is_built_from_its_fields() {
    let mut header = KRecHeader::new(
        String::from("abc-123"),
        String::from("walk"),
        String::from("biped"),
        String::from("0001"),
        10,
        20,
    );
    assert_eq!(header.uuid, "abc-123");
    assert_eq!(header.task, "walk");
    assert_eq!(header.robot_platform, "biped");
    assert_eq!(header.robot_serial, "0001");
    assert_eq!(header.start_timestamp, 10);
    assert_eq!(header.end_timestamp, 20);
    assert_eq!(header.actuator_config_count(), 0);
    header.add_actuator_config(ActuatorConfig::new(1, None, None, None, None, None));
    header.add_actuator_config(ActuatorConfig::new(2, None, None, None, None, None));
    assert_eq!(header.actuator_config_count(), 2);
    assert_eq!(header.actuator_configs[0].actuator_id, 1);
    assert_eq!(header.actuator_configs[1].actuator_id, 2);
    assert_eq!(KRecHeader::default().uuid, "");
}

#[test]
fn frame_defaults_to_zero_counters() {
    let f = KRecFrame::new(None, Some(5), None);
    assert_eq!(f.video_timestamp, 0);
    assert_eq!(f.frame_number, 5);
    assert_eq!(f.inference_step, 0);
    assert_eq!(f.actuator_state_count(), 0);
    assert!(!f.has_actuator_commands());
    assert!(!f.has_imu_values());
    assert_eq!(KRecFrame::default(), KRecFrame::new(None, None, None));
}

#[test]
fn frame_from_three_values() {
    let f = KRecFrame::from_values(&[100, 2, 3]).unwrap();
    assert_eq!(f.video_timestamp, 100);
    assert_eq!(f.frame_number, 2);
    assert_eq!(f.inference_step, 3);
    assert_eq!(f.actuator_state_count(), 0);
    assert_eq!(
        KRecFrame::from_values(&[1, 2]),
        Err(CountError { expected: 3, found: 2 })
    );
}

#[test]
fn frame_states_commands_and_imu() {
    let mut f = KRecFrame::new(Some(1), Some(1), Some(1));
    f.add_actuator_state(ActuatorState::new(1, Some(true), None, None, None, None, None, None));
    f.add_actuator_state(ActuatorState::new(2, Some(false), None, None, None, None, None, None));
    assert_eq!(f.actuator_state_count(), 2);
    assert_eq!(f.get_actuator_states()[0].actuator_id, 1);
    assert_eq!(f.get_actuator_states()[1].actuator_id, 2);
    f.set_actuator_commands(Some(ActuatorCommand::new(1, None, None, None)));
    assert!(f.has_actuator_commands());
    assert_eq!(f.get_actuator_commands(), Some(ActuatorCommand::new(1, None, None, None)));
    f.set_imu_values(Some(ImuValues::default()));
    assert!(f.has_imu_values());
    assert_eq!(f.get_imu_values(), Some(ImuValues::default()));
    f.clear_actuator_commands();
    assert!(!f.has_actuator_commands());
    f.clear_imu_values();
    assert!(!f.has_imu_values());
    f.set_imu_values(None);
    assert_eq!(f.get_imu_values(), None);
    f.clear_actuator_states();
    assert_eq!(f.actuator_state_count(), 0);
}

#[test]
fn expect_count_accepts_only_the_expected() {
    assert_eq!(expect_count(7, 7), Ok(()));
    assert_eq!(expect_count(6, 7), Err(CountError { expected: 7, found: 6 }));
    assert_eq!(expect_count(0, 5), Err(CountError { expected: 5, found: 0 }));
}

#[test]
fn recording_starts_empty_and_grows_at_the_end() {
    let header = KRecHeader::new(
        String::from("u"),
        String::from("t"),
        String::new(),
        String::new(),
        0,
        0,
    );
    let mut recording = KRec::new(header.clone());
    assert_eq!(recording.frame_count(), 0);
    assert_eq!(recording.header(), &header);
    recording.add_frame(KRecFrame::new(Some(10), Some(0), None));
    recording.add_frame(KRecFrame::new(Some(5), Some(1), None));
    recording.add_frame(KRecFrame::new(Some(20), Some(2), None));
    assert_eq!(recording.frame_count(), 3);
    assert_eq!(recording.frames()[0].video_timestamp, 10);
    assert_eq!(recording.frames()[1].video_timestamp, 5);
    assert_eq!(recording.frames()[2].video_timestamp, 20);
}

#[test]
fn recording_from_its_parts() {
    let header = KRecHeader::new(
        String::from("u"),
        String::from("t"),
        String::new(),
        String::new(),
        1,
        2,
    );
    let frames = vec![KRecFrame::new(Some(3), None, None), KRecFrame::new(Some(1), None, None)];
    let recording = KRec::from_parts(header.clone(), frames.clone());
    assert_eq!(recording.header(), &header);
    assert_eq!(recording.frames(), &frames);
    let mut built = KRec::new(header);
    built.add_frame(frames[0].clone());
    built.add_frame(frames[1].clone());
    assert_eq!(built, recording);
}

#[test]
fn recording_header_is_replaced_as_a_whole() {
    let first = KRecHeader::new(
        String::from("first"),
        String::new(),
        String::new(),
        String::new(),
        0,
        0,
    );
    let second = KRecHeader::new(
        String::from("second"),
        String::from("grasp"),
        String::new(),
        String::new(),
        5,
        6,
    );
    let mut recording = KRec::new(first.clone());
    recording.add_frame(KRecFrame::new(Some(7), None, None));
    let replaced = recording.replace_header(second.clone());
    assert_eq!(replaced, first);
    assert_eq!(recording.header(), &second);
    assert_eq!(recording.frame_count(), 1);
    assert_eq!(recording.frames()[0].video_timestamp, 7);
}

#[test]
fn recording_frame_by_position() {
    let mut recording = KRec::new(KRecHeader::default());
    assert_eq!(recording.frame(0), Err(FrameRangeError { index: 0, count: 0 }));
    recording.add_frame(KRecFrame::new(Some(1), None, None));
    recording.add_frame(KRecFrame::new(Some(2), None, None));
    assert_eq!(recording.frame(1).unwrap().video_timestamp, 2);
    assert_eq!(recording.frame(2), Err(FrameRangeError { index: 2, count: 2 }));
    assert_eq!(recording.frame(9), Err(FrameRangeError { index: 9, count: 2 }));
}

#[test]
fn capture_order_is_told_not_enforced() {
    let mut recording = KRec::new(KRecHeader::default());
    assert!(recording.is_in_capture_order());
    recording.add_frame(KRecFrame::new(Some(10), Some(0), None));
    assert!(recording.is_in_capture_order());
    recording.add_frame(KRecFrame::new(Some(10), Some(1), None));
    recording.add_frame(KRecFrame::new(Some(43), Some(1), None));
    assert!(recording.is_in_capture_order());
    recording.add_frame(KRecFrame::new(Some(42), Some(2), None));
    assert!(!recording.is_in_capture_order());
    assert_eq!(recording.frame_count(), 4);
    let mut numbers = KRec::new(KRecHeader::default());
    numbers.add_frame(KRecFrame::new(Some(1), Some(5), None));
    numbers.add_frame(KRecFrame::new(Some(2), Some(4), None));
    assert!(!numbers.is_in_capture_order());
    let mut late = KRec::new(KRecHeader::default());
    late.add_frame(KRecFrame::new(Some(1), Some(1), None));
    late.add_frame(KRecFrame::new(Some(2), Some(2), None));
    late.add_frame(KRecFrame::new(Some(3), Some(3), None));
    late.add_frame(KRecFrame::new(Some(0), Some(4), None));
    assert!(!late.is_in_capture_order());
}

#[test]
fn distinct_actuator_ids_are_told_not_enforced() {
    let mut header = KRecHeader::default();
    assert!(header.has_distinct_actuator_ids());
    header.add_actuator_config(ActuatorConfig::new(3, None, None, None, None, None));
    assert!(header.has_distinct_actuator_ids());
    header.add_actuator_config(ActuatorConfig::new(1, None, None, None, None, None));
    header.add_actuator_config(ActuatorConfig::new(2, None, None, None, None, None));
    assert!(header.has_distinct_actuator_ids());
    header.add_actuator_config(ActuatorConfig::new(3, None, None, None, None, None));
    assert!(!header.has_distinct_actuator_ids());
    assert_eq!(header.actuator_config_count(), 4);
    let mut twins = KRecHeader::default();
    twins.add_actuator_config(ActuatorConfig::new(0, None, None, None, None, None));
    twins.add_actuator_config(ActuatorConfig::new(0, None, None, None, None, None));
    assert!(!twins.has_distinct_actuator_ids());
}
