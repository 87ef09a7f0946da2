use krec::combine::{combine, extract, Artifact, ARTIFACT_VERSION};
use krec::storage::intermediate_path;
use krec::error::{CombineError, DecodeError};
use krec::recording::KRec;
use krec::schema::{KRecFrame, KRecHeader};
use krec::wire::MAX_PAYLOAD;

fn two_frame_recording() -> KRec {
    let mut recording = KRec::new(KRecHeader::new(
        String::from("abc-123"),
        String::from("walk"),
        String::new(),
        String::new(),
        0,
        0,
    ));
    recording.add_frame(KRecFrame::new(Some(0), Some(0), Some(0)));
    recording.add_frame(KRecFrame::new(Some(33), Some(1), Some(0)));
    recording
}

fn short_video() -> Vec<u8> {
    let mut video = vec![0x1A, 0x45, 0xDF, 0xA3];
    video.extend((0..200u32).map(|n| (n * 7 % 251) as u8));
    video
}

#[test]
fn artifact_has_exact_bytes() {
    let bytes = combine(&[1, 2, 3], &[4, 5], "xyz", "grasp").unwrap();
    let mut expected = b"KRVC".to_vec();
    expected.extend_from_slice(&[1, 0]);
    expected.extend_from_slice(&[3, 0]);
    expected.extend_from_slice(b"xyz");
    expected.extend_from_slice(&[5, 0]);
    expected.extend_from_slice(b"grasp");
    expected.extend_from_slice(&3u64.to_le_bytes());
    expected.extend_from_slice(&[1, 2, 3]);
    expected.extend_from_slice(&2u64.to_le_bytes());
    expected.extend_from_slice(&[4, 5]);
    assert_eq!(bytes, expected);
    assert_eq!(ARTIFACT_VERSION, 1);
}

#[test]
fn combine_two_frame_recording_with_video() {
    let recording = two_frame_recording();
    let recording_bytes = recording.to_bytes().unwrap();
    let video = short_video();
    let video_before = video.clone();
    let recording_before = recording_bytes.clone();
    let artifact = combine(&video, &recording_bytes, "xyz", "grasp").unwrap();
    assert_eq!(video, video_before);
    assert_eq!(recording_bytes, recording_before);
    let parts = extract(&artifact).unwrap();
    assert_eq!(parts.uuid, "xyz");
    assert_eq!(parts.task, "grasp");
    assert_eq!(parts.video, video);
    assert_eq!(parts.recording, recording_bytes);
    let loaded = KRec::from_bytes(&parts.recording).unwrap();
    assert_eq!(loaded, recording);
    assert_eq!(loaded.header().uuid, "abc-123");
    assert_eq!(loaded.frame_count(), 2);
}

#[test]
fn artifact_is_taken_apart_without_loss() {
    let video: Vec<u8> = (0..=255u8).cycle().take(70_000).collect();
    let recording: Vec<u8> = (0..=255u8).rev().cycle().take(1_000).collect();
    let artifact = combine(&video, &recording, "ü-1", "").unwrap();
    assert_eq!(
        extract(&artifact),
        Ok(Artifact { uuid: String::from("ü-1"), task: String::new(), video, recording })
    );
}

#[test]
fn the_recording_is_carried_as_it_is() {
    let artifact = combine(&[7], b"not a recording", "u", "t").unwrap();
    let parts = extract(&artifact).unwrap();
    assert_eq!(parts.recording, b"not a recording");
    let artifact = combine(&[7], &[], "u", "t").unwrap();
    assert_eq!(extract(&artifact).unwrap().recording, Vec::<u8>::new());
}

#[test]
fn combining_is_deterministic() {
    let video = short_video();
    let recording = two_frame_recording().to_bytes().unwrap();
    assert_eq!(
        combine(&video, &recording, "xyz", "grasp"),
        combine(&video, &recording, "xyz", "grasp")
    );
}

#[test]
fn empty_video_is_refused() {
    assert_eq!(combine(&[], &[1, 2, 3], "xyz", "grasp"), Err(CombineError::EmptyVideo));
    let long = "x".repeat(MAX_PAYLOAD + 1);
    assert_eq!(combine(&[], &[1, 2, 3], &long, &long), Err(CombineError::EmptyVideo));
}

#[test]
fn long_labels_are_refused() {
    let long = "x".repeat(MAX_PAYLOAD + 1);
    let longest = "x".repeat(MAX_PAYLOAD);
    assert_eq!(combine(&[1], &[2], &long, "grasp"), Err(CombineError::UuidTooLong));
    assert_eq!(combine(&[1], &[2], "xyz", &long), Err(CombineError::TaskTooLong));
    assert_eq!(combine(&[1], &[2], &long, &long), Err(CombineError::UuidTooLong));
    let artifact = combine(&[1], &[2], &longest, &longest).unwrap();
    let parts = extract(&artifact).unwrap();
    assert_eq!(parts.uuid, longest);
    assert_eq!(parts.task, longest);
}

#[test]
fn every_proper_prefix_of_an_artifact_is_truncated() {
    let artifact = combine(&short_video(), &two_frame_recording().to_bytes().unwrap(), "xyz", "grasp")
        .unwrap();
    for keep in 0..artifact.len() {
        assert_eq!(extract(&artifact[..keep]), Err(DecodeError::Truncated));
    }
}

#[test]
fn artifact_with_wrong_signature_is_refused() {
    let mut artifact = combine(&[1, 2, 3], &[4, 5], "xyz", "grasp").unwrap();
    artifact[3] = b'X';
    assert_eq!(extract(&artifact), Err(DecodeError::BadMagic));
    let recording = two_frame_recording().to_bytes().unwrap();
    assert_eq!(extract(&recording), Err(DecodeError::BadMagic));
}

#[test]
fn artifact_of_another_version_is_refused() {
    let mut artifact = combine(&[1, 2, 3], &[4, 5], "xyz", "grasp").unwrap();
    artifact[4] = 3;
    assert_eq!(extract(&artifact), Err(DecodeError::UnsupportedVersion { found: 3 }));
}

#[test]
fn artifact_with_bytes_after_it_is_refused() {
    let mut artifact = combine(&[1, 2, 3], &[4, 5], "xyz", "grasp").unwrap();
    artifact.push(0);
    assert_eq!(extract(&artifact), Err(DecodeError::TrailingBytes));
}

#[test]
fn artifact_label_must_be_utf8() {
    let mut artifact = combine(&[1, 2, 3], &[4, 5], "xyz", "grasp").unwrap();
    artifact[8] = 0xFF;
    assert_eq!(extract(&artifact), Err(DecodeError::InvalidText));
    let mut artifact = combine(&[1, 2, 3], &[4, 5], "xyz", "grasp").unwrap();
    artifact[13] = 0xC0;
    assert_eq!(extract(&artifact), Err(DecodeError::InvalidText));
}

#[test]
fn intermediate_path_is_beside_the_output() {
    assert_eq!(intermediate_path("out.mkv"), "out.mkv.tmp.krec");
    assert_eq!(intermediate_path("/data/run 1/combined.krec"), "/data/run 1/combined.krec.tmp.krec");
    assert_eq!(intermediate_path(""), ".tmp.krec");
    assert_ne!(intermediate_path("a"), intermediate_path("b"));
}
