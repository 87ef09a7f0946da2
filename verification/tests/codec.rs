use krec::codec::actuator::{
    decode_command, decode_config, decode_state, encode_command, encode_config, encode_state,
};
use krec::codec::frame::{decode_frame, encode_frame};
use krec::codec::header::{decode_header, encode_header};
use krec::codec::imu::{
    decode_imu, decode_quaternion, decode_vec3, encode_imu, encode_quaternion, encode_vec3,
};
use krec::error::{DecodeError, EncodeError};
use krec::payload::{
    put_f32, put_f64, put_flag, put_text, put_u32, put_u64, read_f32, read_f64, read_flag,
    read_text, read_u32, read_u64,
};
use krec::scalar::{Float32, Float64};
use krec::schema::{
    ActuatorCommand, ActuatorConfig, ActuatorState, ImuQuaternion, ImuValues, KRecFrame,
    KRecHeader, Vec3,
};
use krec::wire::{put_bytes, put_field, put_le, split_fields, MAX_PAYLOAD};

fn f64_of(value: f64) -> Float64 {
    Float64::from_bits(value.to_bits())
}

fn f32_of(value: f32) -> Float32 {
    Float32::from_bits(value.to_bits())
}

fn field(tag: u8, payload: &[u8]) -> Vec<u8> {
    let mut bytes = vec![tag];
    bytes.extend_from_slice(&(payload.len() as u16).to_le_bytes());
    bytes.extend_from_slice(payload);
    bytes
}

fn join(parts: &[Vec<u8>]) -> Vec<u8> {
    parts.concat()
}

#[test]
fn put_le_writes_least_significant_first() {
    let mut out = vec![0xAA];
    put_le(&mut out, 0x0102_0304, 4);
    assert_eq!(out, vec![0xAA, 0x04, 0x03, 0x02, 0x01]);
    let mut out = Vec::new();
    put_le(&mut out, 0x1122_3344_5566_7788, 8);
    assert_eq!(out, 0x1122_3344_5566_7788u64.to_le_bytes().to_vec());
    let mut out = Vec::new();
    put_le(&mut out, 0x1234, 1);
    assert_eq!(out, vec![0x34]);
    let mut out = Vec::new();
    put_le(&mut out, 7, 0);
    assert_eq!(out, Vec::<u8>::new());
}

#[test]
fn put_bytes_appends() {
    let mut out = vec![1, 2];
    put_bytes(&mut out, &[3, 4, 5]);
    assert_eq!(out, vec![1, 2, 3, 4, 5]);
    put_bytes(&mut out, &[]);
    assert_eq!(out, vec![1, 2, 3, 4, 5]);
}

#[test]
fn put_field_writes_tag_length_payload() {
    let mut out = Vec::new();
    assert!(put_field(&mut out, 9, &[0xAB, 0xCD, 0xEF]));
    assert_eq!(out, vec![9, 3, 0, 0xAB, 0xCD, 0xEF]);
    assert!(put_field(&mut out, 2, &[]));
    assert_eq!(out, vec![9, 3, 0, 0xAB, 0xCD, 0xEF, 2, 0, 0]);
}

#[test]
fn put_field_refuses_what_does_not_fit() {
    let mut out = vec![7];
    let large = vec![0u8; MAX_PAYLOAD + 1];
    assert!(!put_field(&mut out, 1, &large));
    assert_eq!(out, vec![7]);
    let largest = vec![1u8; MAX_PAYLOAD];
    assert!(put_field(&mut out, 1, &largest));
    assert_eq!(out.len(), 1 + 3 + MAX_PAYLOAD);
    assert_eq!(&out[1..4], &[1, 0xFF, 0xFF]);
}

#[test]
fn split_fields_finds_each_field() {
    let bytes = join(&[field(1, &[10, 11]), field(200, &[]), field(3, &[12])]);
    let fields = split_fields(&bytes).unwrap();
    assert_eq!(fields.len(), 3);
    assert_eq!(fields[0].tag, 1);
    assert_eq!(fields[0].payload, &[10, 11]);
    assert_eq!(fields[1].tag, 200);
    assert_eq!(fields[1].payload, &[] as &[u8]);
    assert_eq!(fields[2].tag, 3);
    assert_eq!(fields[2].payload, &[12]);
    assert_eq!(split_fields(&[]).unwrap().len(), 0);
}

#[test]
fn split_fields_refuses_a_cut_field() {
    assert!(split_fields(&[1]).is_none());
    assert!(split_fields(&[1, 2]).is_none());
    assert!(split_fields(&[1, 2, 0, 9]).is_none());
    let mut bytes = field(1, &[10, 11]);
    bytes.push(5);
    assert!(split_fields(&bytes).is_none());
}

#[test]
fn scalar_fields_have_exact_bytes() {
    let mut out = Vec::new();
    put_u64(&mut out, 5, 0x0102_0304_0506_0708);
    assert_eq!(out, vec![5, 8, 0, 8, 7, 6, 5, 4, 3, 2, 1]);
    let mut out = Vec::new();
    put_u32(&mut out, 1, 0xDEAD_BEEF);
    assert_eq!(out, vec![1, 4, 0, 0xEF, 0xBE, 0xAD, 0xDE]);
    let mut out = Vec::new();
    put_flag(&mut out, 2, true);
    put_flag(&mut out, 2, false);
    assert_eq!(out, vec![2, 1, 0, 1, 2, 1, 0, 0]);
    let mut out = Vec::new();
    put_f64(&mut out, 3, f64_of(0.5));
    assert_eq!(out, field(3, &0.5f64.to_le_bytes()));
    let mut out = Vec::new();
    put_f32(&mut out, 7, f32_of(12.5));
    assert_eq!(out, field(7, &12.5f32.to_le_bytes()));
    let mut out = Vec::new();
    assert!(put_text(&mut out, 6, "hip"));
    assert_eq!(out, vec![6, 3, 0, b'h', b'i', b'p']);
}

#[test]
fn text_field_carries_utf8() {
    let mut out = Vec::new();
    assert!(put_text(&mut out, 1, "héllo ✓"));
    assert_eq!(out, field(1, "héllo ✓".as_bytes()));
    assert_eq!(read_text("héllo ✓".as_bytes()), Ok(String::from("héllo ✓")));
    assert_eq!(read_text(&[]), Ok(String::new()));
}

#[test]
fn text_field_refuses_a_long_text() {
    let long = "a".repeat(MAX_PAYLOAD + 1);
    let mut out = vec![1, 2, 3];
    assert!(!put_text(&mut out, 1, &long));
    assert_eq!(out, vec![1, 2, 3]);
    let longest = "a".repeat(MAX_PAYLOAD);
    assert!(put_text(&mut out, 1, &longest));
}

#[test]
fn scalar_payloads_are_read_exactly() {
    assert_eq!(read_u64(&[8, 7, 6, 5, 4, 3, 2, 1]), Ok(0x0102_0304_0506_0708));
    assert_eq!(read_u32(&[0xEF, 0xBE, 0xAD, 0xDE]), Ok(0xDEAD_BEEF));
    assert_eq!(read_flag(&[1]), Ok(true));
    assert_eq!(read_flag(&[0]), Ok(false));
    assert_eq!(read_f64(&(-1.5f64).to_le_bytes()), Ok(f64_of(-1.5)));
    assert_eq!(read_f32(&2.5f32.to_le_bytes()), Ok(f32_of(2.5)));
}

#[test]
fn scalar_payloads_of_wrong_size_are_malformed() {
    assert_eq!(read_u64(&[1, 2, 3]), Err(DecodeError::Malformed));
    assert_eq!(read_u64(&[0; 9]), Err(DecodeError::Malformed));
    assert_eq!(read_u32(&[]), Err(DecodeError::Malformed));
    assert_eq!(read_u32(&[0; 8]), Err(DecodeError::Malformed));
    assert_eq!(read_flag(&[]), Err(DecodeError::Malformed));
    assert_eq!(read_flag(&[2]), Err(DecodeError::Malformed));
    assert_eq!(read_flag(&[1, 0]), Err(DecodeError::Malformed));
    assert_eq!(read_f64(&[0; 4]), Err(DecodeError::Malformed));
    assert_eq!(read_f32(&[0; 8]), Err(DecodeError::Malformed));
}

#[test]
fn text_payload_must_be_utf8() {
    assert_eq!(read_text(&[0xFF, 0xFE]), Err(DecodeError::InvalidText));
    assert_eq!(read_text(&[0xC3]), Err(DecodeError::InvalidText));
    assert_eq!(read_text(&[0xED, 0xA0, 0x80]), Err(DecodeError::InvalidText));
    assert_eq!(read_text(&[0xC3, 0xA9]), Ok(String::from("é")));
}

#[test]
fn vec3_has_exact_bytes() {
    let v = Vec3 { x: f64_of(1.0), y: f64_of(2.0), z: f64_of(3.0) };
    let expected = join(&[
        field(1, &1.0f64.to_le_bytes()),
        field(2, &2.0f64.to_le_bytes()),
        field(3, &3.0f64.to_le_bytes()),
    ]);
    assert_eq!(expected.len(), 33);
    assert_eq!(encode_vec3(&v), expected);
    assert_eq!(decode_vec3(&expected), Ok(v));
}

#[test]
fn vec3_keeps_every_bit() {
    let v = Vec3 {
        x: Float64::from_bits(0x7FF8_0000_0000_0001),
        y: f64_of(-0.0),
        z: f64_of(f64::MIN_POSITIVE / 4.0),
    };
    let read = decode_vec3(&encode_vec3(&v)).unwrap();
    assert_eq!(read.x.bits, 0x7FF8_0000_0000_0001);
    assert_eq!(read.y.bits, 0x8000_0000_0000_0000);
    assert_eq!(read, v);
    let third = f64_of(1.0 / 3.0);
    let w = Vec3 { x: third, y: third, z: third };
    assert_eq!(f64::from_bits(decode_vec3(&encode_vec3(&w)).unwrap().x.bits), 1.0 / 3.0);
}

#[test]
fn vec3_missing_components_are_zero() {
    let only_y = field(2, &5.0f64.to_le_bytes());
    assert_eq!(
        decode_vec3(&only_y),
        Ok(Vec3 { x: f64_of(0.0), y: f64_of(5.0), z: f64_of(0.0) })
    );
    assert_eq!(decode_vec3(&[]), Ok(Vec3::default()));
}

#[test]
fn vec3_later_field_replaces_earlier() {
    let bytes = join(&[field(1, &1.0f64.to_le_bytes()), field(1, &9.0f64.to_le_bytes())]);
    assert_eq!(decode_vec3(&bytes).unwrap().x, f64_of(9.0));
}

#[test]
fn vec3_unknown_fields_are_passed_over() {
    let bytes = join(&[
        field(1, &1.0f64.to_le_bytes()),
        field(77, b"from a later version"),
        field(3, &3.0f64.to_le_bytes()),
        field(255, &[]),
    ]);
    assert_eq!(
        decode_vec3(&bytes),
        Ok(Vec3 { x: f64_of(1.0), y: f64_of(0.0), z: f64_of(3.0) })
    );
}

#[test]
fn vec3_malformed_bytes_are_refused() {
    assert_eq!(decode_vec3(&field(1, &[1, 2, 3])), Err(DecodeError::Malformed));
    assert_eq!(decode_vec3(&[1, 8, 0, 1, 2]), Err(DecodeError::Malformed));
    assert_eq!(decode_vec3(&[1]), Err(DecodeError::Malformed));
}

#[test]
fn quaternion_has_exact_bytes() {
    let q = ImuQuaternion { x: f64_of(0.0), y: f64_of(0.0), z: f64_of(0.0), w: f64_of(1.0) };
    let expected = join(&[
        field(1, &0.0f64.to_le_bytes()),
        field(2, &0.0f64.to_le_bytes()),
        field(3, &0.0f64.to_le_bytes()),
        field(4, &1.0f64.to_le_bytes()),
    ]);
    assert_eq!(expected.len(), 44);
    assert_eq!(encode_quaternion(&q), expected);
    assert_eq!(decode_quaternion(&expected), Ok(q));
}

#[test]
fn quaternion_missing_components_come_from_identity() {
    assert_eq!(decode_quaternion(&[]), Ok(ImuQuaternion::default()));
    let only_x = field(1, &0.5f64.to_le_bytes());
    let q = decode_quaternion(&only_x).unwrap();
    assert_eq!(f64::from_bits(q.x.bits), 0.5);
    assert_eq!(f64::from_bits(q.w.bits), 1.0);
}

#[test]
fn imu_absent_members_have_no_field() {
    assert_eq!(encode_imu(&ImuValues::default()), Vec::<u8>::new());
    assert_eq!(decode_imu(&[]), Ok(ImuValues::default()));
    let gyro = Vec3 { x: f64_of(1.0), y: f64_of(2.0), z: f64_of(3.0) };
    let imu = ImuValues::new(None, Some(gyro), None, None);
    let bytes = encode_imu(&imu);
    assert_eq!(bytes, field(2, &encode_vec3(&gyro)));
    assert_eq!(decode_imu(&bytes), Ok(imu));
}

#[test]
fn imu_round_trip_with_every_member() {
    let imu = ImuValues::new(
        Some(Vec3 { x: f64_of(0.1), y: f64_of(0.2), z: f64_of(9.8) }),
        Some(Vec3::default()),
        Some(Vec3 { x: f64_of(-30.0), y: f64_of(4.0), z: f64_of(12.0) }),
        Some(ImuQuaternion { x: f64_of(0.5), y: f64_of(0.5), z: f64_of(0.5), w: f64_of(0.5) }),
    );
    let bytes = encode_imu(&imu);
    assert_eq!(bytes.len(), 155);
    let read = decode_imu(&bytes).unwrap();
    assert_eq!(read, imu);
    assert_eq!(read.gyro, Some(Vec3::default()));
}

#[test]
fn imu_refuses_a_malformed_member() {
    let bytes = field(1, &[1, 2]);
    assert_eq!(decode_imu(&bytes), Err(DecodeError::Malformed));
    let bytes = field(4, &field(4, &[0; 7]));
    assert_eq!(decode_imu(&bytes), Err(DecodeError::Malformed));
}

#[test]
fn state_has_exact_bytes() {
    let s = ActuatorState::new(1, Some(true), Some(f64_of(0.5)), None, None, None, None, None);
    let expected = join(&[
        field(1, &1u32.to_le_bytes()),
        field(2, &[1]),
        field(3, &0.5f64.to_le_bytes()),
    ]);
    assert_eq!(encode_state(&s), expected);
    assert_eq!(decode_state(&expected), Ok(s));
}

#[test]
fn state_with_every_member() {
    let s = ActuatorState::new(
        0xFFFF_FFFF,
        Some(false),
        Some(f64_of(1.0)),
        Some(f64_of(2.0)),
        Some(f64_of(3.0)),
        Some(f64_of(40.5)),
        Some(f32_of(24.0)),
        Some(f32_of(1.25)),
    );
    let bytes = encode_state(&s);
    assert_eq!(bytes.len(), 69);
    assert_eq!(decode_state(&bytes), Ok(s));
}

#[test]
fn state_absent_is_not_zero() {
    let absent = ActuatorState::new(1, Some(true), None, None, None, None, None, None);
    let zero = ActuatorState::new(
        1,
        Some(true),
        Some(f64_of(0.0)),
        Some(f64_of(0.0)),
        Some(f64_of(0.0)),
        Some(f64_of(0.0)),
        Some(f32_of(0.0)),
        Some(f32_of(0.0)),
    );
    let absent_bytes = encode_state(&absent);
    let zero_bytes = encode_state(&zero);
    assert_ne!(absent_bytes, zero_bytes);
    assert_eq!(absent_bytes.len(), 11);
    let read_absent = decode_state(&absent_bytes).unwrap();
    assert_eq!(read_absent.position, None);
    assert_eq!(read_absent.velocity, None);
    assert_eq!(read_absent.torque, None);
    assert_eq!(read_absent.temperature, None);
    assert_eq!(read_absent.voltage, None);
    assert_eq!(read_absent.current, None);
    let read_zero = decode_state(&zero_bytes).unwrap();
    assert_eq!(read_zero.position, Some(f64_of(0.0)));
    assert_eq!(read_zero.velocity, Some(f64_of(0.0)));
    assert_eq!(read_zero.torque, Some(f64_of(0.0)));
    assert_eq!(read_zero.temperature, Some(f64_of(0.0)));
    assert_eq!(read_zero.voltage, Some(f32_of(0.0)));
    assert_eq!(read_zero.current, Some(f32_of(0.0)));
}

#[test]
fn state_refuses_an_invalid_flag() {
    let bytes = join(&[field(1, &1u32.to_le_bytes()), field(2, &[2])]);
    assert_eq!(decode_state(&bytes), Err(DecodeError::Malformed));
}

#[test]
fn command_has_exact_bytes() {
    let c = ActuatorCommand::new(9, Some(f32_of(1.0)), Some(f32_of(-1.0)), None);
    let expected = join(&[
        field(1, &9u32.to_le_bytes()),
        field(2, &1.0f32.to_le_bytes()),
        field(3, &(-1.0f32).to_le_bytes()),
        field(4, &0.0f32.to_le_bytes()),
    ]);
    assert_eq!(expected.len(), 28);
    assert_eq!(encode_command(&c), expected);
    assert_eq!(decode_command(&expected), Ok(c));
    assert_eq!(decode_command(&[]), Ok(ActuatorCommand::default()));
}

#[test]
fn config_has_exact_bytes() {
    let c = ActuatorConfig::new(1, Some(f64_of(10.0)), None, None, None, Some(String::from("hip")));
    let expected = join(&[
        field(1, &1u32.to_le_bytes()),
        field(2, &10.0f64.to_le_bytes()),
        field(6, b"hip"),
    ]);
    assert_eq!(encode_config(&c), Ok(expected.clone()));
    assert_eq!(decode_config(&expected), Ok(c));
}

#[test]
fn config_absent_name_is_not_empty_name() {
    let absent = ActuatorConfig::new(1, None, None, None, None, None);
    let empty = ActuatorConfig::new(1, None, None, None, None, Some(String::new()));
    let absent_bytes = encode_config(&absent).unwrap();
    let empty_bytes = encode_config(&empty).unwrap();
    assert_ne!(absent_bytes, empty_bytes);
    assert_eq!(decode_config(&absent_bytes).unwrap().name, None);
    assert_eq!(decode_config(&empty_bytes).unwrap().name, Some(String::new()));
    let zero = ActuatorConfig::new(1, Some(f64_of(0.0)), None, None, Some(f64_of(0.0)), None);
    let read = decode_config(&encode_config(&zero).unwrap()).unwrap();
    assert_eq!(read.kp, Some(f64_of(0.0)));
    assert_eq!(read.kd, None);
    assert_eq!(read.ki, None);
    assert_eq!(read.max_torque, Some(f64_of(0.0)));
}

#[test]
fn config_with_a_long_name_is_refused() {
    let c = ActuatorConfig::new(1, None, None, None, None, Some("n".repeat(MAX_PAYLOAD + 1)));
    assert_eq!(encode_config(&c), Err(EncodeError::ActuatorConfigTooLarge));
    let c = ActuatorConfig::new(1, None, None, None, None, Some("n".repeat(MAX_PAYLOAD)));
    assert_eq!(encode_config(&c), Err(EncodeError::ActuatorConfigTooLarge));
    let c = ActuatorConfig::new(1, None, None, None, None, Some("n".repeat(MAX_PAYLOAD - 10)));
    let bytes = encode_config(&c).unwrap();
    assert_eq!(bytes.len(), MAX_PAYLOAD);
    assert_eq!(decode_config(&bytes), Ok(c));
    let c = ActuatorConfig::new(
        1,
        Some(f64_of(1.0)),
        None,
        None,
        None,
        Some("n".repeat(MAX_PAYLOAD - 10)),
    );
    assert_eq!(encode_config(&c), Err(EncodeError::ActuatorConfigTooLarge));
}

#[test]
fn config_refuses_a_name_that_is_not_utf8() {
    let bytes = join(&[field(1, &1u32.to_le_bytes()), field(6, &[0xFF])]);
    assert_eq!(decode_config(&bytes), Err(DecodeError::InvalidText));
}

#[test]
fn header_has_exact_bytes() {
    let mut header = KRecHeader::new(
        String::from("abc-123"),
        String::from("walk"),
        String::from("biped"),
        String::from("sn-1"),
        1000,
        2000,
    );
    let config = ActuatorConfig::new(1, Some(f64_of(10.0)), None, None, None, None);
    header.add_actuator_config(config.clone());
    let expected = join(&[
        field(1, b"abc-123"),
        field(2, b"walk"),
        field(3, b"biped"),
        field(4, b"sn-1"),
        field(5, &1000u64.to_le_bytes()),
        field(6, &2000u64.to_le_bytes()),
        field(7, &encode_config(&config).unwrap()),
    ]);
    assert_eq!(encode_header(&header), Ok(expected.clone()));
    assert_eq!(decode_header(&expected), Ok(header));
}

#[test]
fn header_configs_keep_their_order() {
    let mut header = KRecHeader::default();
    for id in [5u32, 3, 9, 3] {
        header.add_actuator_config(ActuatorConfig::new(id, None, None, None, None, None));
    }
    let read = decode_header(&encode_header(&header).unwrap()).unwrap();
    let ids: Vec<u32> = read.actuator_configs.iter().map(|c| c.actuator_id).collect();
    assert_eq!(ids, vec![5, 3, 9, 3]);
    assert_eq!(read, header);
}

#[test]
fn header_with_a_long_text_is_refused() {
    let long = "x".repeat(MAX_PAYLOAD + 1);
    let header =
        KRecHeader::new(long.clone(), String::new(), String::new(), String::new(), 0, 0);
    assert_eq!(encode_header(&header), Err(EncodeError::HeaderTextTooLong));
    let header =
        KRecHeader::new(String::new(), long.clone(), String::new(), String::new(), 0, 0);
    assert_eq!(encode_header(&header), Err(EncodeError::HeaderTextTooLong));
    let header =
        KRecHeader::new(String::new(), String::new(), long.clone(), String::new(), 0, 0);
    assert_eq!(encode_header(&header), Err(EncodeError::HeaderTextTooLong));
    let header = KRecHeader::new(String::new(), String::new(), String::new(), long, 0, 0);
    assert_eq!(encode_header(&header), Err(EncodeError::HeaderTextTooLong));
    let longest = "x".repeat(MAX_PAYLOAD);
    let header = KRecHeader::new(longest, String::new(), String::new(), String::new(), 0, 0);
    assert_eq!(decode_header(&encode_header(&header).unwrap()), Ok(header));
}

#[test]
fn header_with_a_large_config_is_refused() {
    let mut header = KRecHeader::default();
    header.add_actuator_config(ActuatorConfig::new(1, None, None, None, None, None));
    header.add_actuator_config(ActuatorConfig::new(
        2,
        None,
        None,
        None,
        None,
        Some("n".repeat(MAX_PAYLOAD)),
    ));
    assert_eq!(encode_header(&header), Err(EncodeError::ActuatorConfigTooLarge));
    header.uuid = "x".repeat(MAX_PAYLOAD + 1);
    assert_eq!(encode_header(&header), Err(EncodeError::HeaderTextTooLong));
}

#[test]
fn header_unknown_fields_are_passed_over() {
    let bytes = join(&[
        field(1, b"abc"),
        field(42, &[1, 2, 3, 4]),
        field(2, b"walk"),
        field(8, b"a member of a later version"),
    ]);
    let read = decode_header(&bytes).unwrap();
    assert_eq!(read.uuid, "abc");
    assert_eq!(read.task, "walk");
    assert_eq!(read.robot_platform, "");
    assert_eq!(read.actuator_config_count(), 0);
}

#[test]
fn header_refuses_malformed_members() {
    assert_eq!(decode_header(&field(1, &[0xFF])), Err(DecodeError::InvalidText));
    assert_eq!(decode_header(&field(5, &[1, 2, 3])), Err(DecodeError::Malformed));
    assert_eq!(decode_header(&field(7, &[1, 4, 0, 1])), Err(DecodeError::Malformed));
    assert_eq!(decode_header(&[1, 9, 0, b'a']), Err(DecodeError::Malformed));
}

#[test]
fn header_first_refusal_in_reading_order() {
    let bytes = join(&[field(5, &[1]), field(1, &[0xFF])]);
    assert_eq!(decode_header(&bytes), Err(DecodeError::Malformed));
    let bytes = join(&[field(1, &[0xFF]), field(5, &[1])]);
    assert_eq!(decode_header(&bytes), Err(DecodeError::InvalidText));
}

#[test]
fn frame_has_exact_bytes() {
    let mut frame = KRecFrame::new(Some(100), Some(2), Some(3));
    let state = ActuatorState::new(1, Some(true), Some(f64_of(0.5)), None, None, None, None, None);
    let command = ActuatorCommand::new(1, Some(f32_of(0.25)), None, None);
    let imu = ImuValues::new(Some(Vec3::default()), None, None, None);
    frame.add_actuator_state(state);
    frame.set_actuator_commands(Some(command));
    frame.set_imu_values(Some(imu));
    let expected = join(&[
        field(1, &100u64.to_le_bytes()),
        field(2, &2u64.to_le_bytes()),
        field(3, &3u64.to_le_bytes()),
        field(4, &encode_state(&state)),
        field(5, &encode_command(&command)),
        field(6, &encode_imu(&imu)),
    ]);
    assert_eq!(encode_frame(&frame), expected);
    assert_eq!(decode_frame(&expected), Ok(frame));
}

#[test]
fn frame_absent_command_and_imu() {
    let frame = KRecFrame::new(Some(1), Some(2), Some(3));
    let bytes = encode_frame(&frame);
    assert_eq!(bytes.len(), 33);
    let read = decode_frame(&bytes).unwrap();
    assert_eq!(read.actuator_commands, None);
    assert_eq!(read.imu_values, None);
    let mut with_empty = KRecFrame::new(Some(1), Some(2), Some(3));
    with_empty.set_imu_values(Some(ImuValues::default()));
    with_empty.set_actuator_commands(Some(ActuatorCommand::default()));
    let read = decode_frame(&encode_frame(&with_empty)).unwrap();
    assert_eq!(read.imu_values, Some(ImuValues::default()));
    assert_eq!(read.actuator_commands, Some(ActuatorCommand::default()));
    assert_ne!(encode_frame(&with_empty), bytes);
}

#[test]
fn frame_states_keep_their_order() {
    let mut frame = KRecFrame::default();
    for id in [4u32, 1, 3, 2] {
        frame.add_actuator_state(ActuatorState::new(id, None, None, None, None, None, None, None));
    }
    let read = decode_frame(&encode_frame(&frame)).unwrap();
    let ids: Vec<u32> = read.actuator_states.iter().map(|s| s.actuator_id).collect();
    assert_eq!(ids, vec![4, 1, 3, 2]);
}

#[test]
fn frame_with_many_states() {
    let mut frame = KRecFrame::new(Some(u64::MAX), Some(u64::MAX), Some(u64::MAX));
    for id in 0..3000u32 {
        frame.add_actuator_state(ActuatorState::new(
            id,
            Some(id % 2 == 0),
            Some(f64_of(id as f64 * 0.5)),
            None,
            None,
            None,
            None,
            Some(f32_of(id as f32)),
        ));
    }
    let bytes = encode_frame(&frame);
    assert!(bytes.len() > MAX_PAYLOAD);
    assert_eq!(decode_frame(&bytes), Ok(frame));
}

#[test]
fn frame_refuses_a_malformed_state() {
    let bytes = field(4, &field(2, &[7]));
    assert_eq!(decode_frame(&bytes), Err(DecodeError::Malformed));
    let bytes = field(5, &[1, 2]);
    assert_eq!(decode_frame(&bytes), Err(DecodeError::Malformed));
}
