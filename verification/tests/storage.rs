use krec::combine::extract;
use krec::error::{CombineError, DecodeError, EncodeError, KRecError, ReadFailure};
use krec::recording::KRec;
use krec::schema::{KRecFrame, KRecHeader};
use krec::storage::{combine_with_video, extract_artifact, load, partial_path, save};
use krec::wire::MAX_PAYLOAD;

fn stored_recording() -> KRec {
    let mut recording = KRec::new(KRecHeader::new(
        String::from("stored"),
        String::from("walk"),
        String::new(),
        String::new(),
        1,
        2,
    ));
    recording.add_frame(KRecFrame::new(Some(0), Some(0), Some(0)));
    recording.add_frame(KRecFrame::new(Some(33), Some(1), Some(1)));
    recording
}

#[test]
fn save_then_load_gives_the_recording_back() {
    let recording = stored_recording();
    let bytes = save(&recording).unwrap();
    assert_eq!(bytes, recording.to_bytes().unwrap());
    assert_eq!(load(Ok(bytes)), Ok(recording));
}

#[test]
fn load_of_a_missing_file_is_not_found() {
    assert_eq!(load(Err(ReadFailure::NotFound)), Err(KRecError::NotFound));
}

#[test]
fn load_of_an_unreadable_file_is_an_io_failure() {
    assert_eq!(load(Err(ReadFailure::Unreadable)), Err(KRecError::IoFailure));
}

#[test]
fn load_of_a_truncated_file_is_a_decode_failure() {
    let bytes = save(&stored_recording()).unwrap();
    for keep in [0, 1, 5, 13, bytes.len() / 2, bytes.len() - 1] {
        assert_eq!(
            load(Ok(bytes[..keep].to_vec())),
            Err(KRecError::DecodeFailure(DecodeError::Truncated))
        );
    }
}

#[test]
fn load_of_other_bytes_is_a_decode_failure() {
    assert_eq!(
        load(Ok(b"<html></html>".to_vec())),
        Err(KRecError::DecodeFailure(DecodeError::BadMagic))
    );
    assert_eq!(
        load(Ok(b"KREC\x09\x00".to_vec())),
        Err(KRecError::DecodeFailure(DecodeError::UnsupportedVersion { found: 9 }))
    );
}

#[test]
fn save_of_a_recording_that_cannot_be_written_is_an_encode_failure() {
    let mut header = KRecHeader::default();
    header.uuid = "u".repeat(MAX_PAYLOAD + 1);
    assert_eq!(
        save(&KRec::new(header)),
        Err(KRecError::EncodeFailure(EncodeError::HeaderTextTooLong))
    );
}

#[test]
fn combine_of_what_was_read() {
    let recording = save(&stored_recording()).unwrap();
    let video = vec![9u8; 64];
    let artifact =
        combine_with_video(Ok(video.clone()), Ok(recording.clone()), "xyz", "grasp").unwrap();
    let parts = extract(&artifact).unwrap();
    assert_eq!(parts.video, video);
    assert_eq!(parts.recording, recording);
    assert_eq!(parts.uuid, "xyz");
    assert_eq!(parts.task, "grasp");
    assert_eq!(load(Ok(parts.recording)), Ok(stored_recording()));
}

#[test]
fn combine_with_a_missing_video_yields_nothing() {
    let recording = save(&stored_recording()).unwrap();
    assert_eq!(
        combine_with_video(Err(ReadFailure::NotFound), Ok(recording.clone()), "xyz", "grasp"),
        Err(KRecError::NotFound)
    );
    assert_eq!(
        combine_with_video(Err(ReadFailure::Unreadable), Ok(recording), "xyz", "grasp"),
        Err(KRecError::IoFailure)
    );
}

#[test]
fn combine_with_a_missing_recording_yields_nothing() {
    assert_eq!(
        combine_with_video(Ok(vec![1, 2, 3]), Err(ReadFailure::NotFound), "xyz", "grasp"),
        Err(KRecError::NotFound)
    );
    assert_eq!(
        combine_with_video(Ok(vec![1, 2, 3]), Err(ReadFailure::Unreadable), "xyz", "grasp"),
        Err(KRecError::IoFailure)
    );
}

#[test]
fn combine_reports_the_video_first() {
    assert_eq!(
        combine_with_video(
            Err(ReadFailure::Unreadable),
            Err(ReadFailure::NotFound),
            "xyz",
            "grasp"
        ),
        Err(KRecError::IoFailure)
    );
    assert_eq!(
        combine_with_video(Err(ReadFailure::NotFound), Ok(vec![]), "xyz", "grasp"),
        Err(KRecError::NotFound)
    );
    assert_eq!(
        combine_with_video(Ok(vec![]), Err(ReadFailure::NotFound), "xyz", "grasp"),
        Err(KRecError::NotFound)
    );
}

#[test]
fn combine_of_what_cannot_be_combined_is_a_combine_failure() {
    assert_eq!(
        combine_with_video(Ok(vec![]), Ok(vec![1]), "xyz", "grasp"),
        Err(KRecError::CombineFailure(CombineError::EmptyVideo))
    );
    let long = "x".repeat(MAX_PAYLOAD + 1);
    assert_eq!(
        combine_with_video(Ok(vec![1]), Ok(vec![1]), &long, "grasp"),
        Err(KRecError::CombineFailure(CombineError::UuidTooLong))
    );
    assert_eq!(
        combine_with_video(Ok(vec![1]), Ok(vec![1]), "xyz", &long),
        Err(KRecError::CombineFailure(CombineError::TaskTooLong))
    );
}

#[test]
fn failure_messages_name_their_kind() {
    assert_eq!(KRecError::NotFound.message(), "file not found");
    assert_eq!(KRecError::IoFailure.message(), "I/O failure");
    assert_eq!(
        KRecError::DecodeFailure(DecodeError::Truncated).message(),
        "decode failure: the data ends before what it announces"
    );
    assert_eq!(
        KRecError::EncodeFailure(EncodeError::ActuatorConfigTooLarge).message(),
        "encode failure: an actuator config is larger than 65535 bytes"
    );
    assert_eq!(
        KRecError::CombineFailure(CombineError::EmptyVideo).message(),
        "combine failure: the video is empty"
    );
    assert_eq!(
        KRecError::DecodeFailure(DecodeError::UnsupportedVersion { found: 7 }).message(),
        "decode failure: unsupported format version 7"
    );
}

#[test]
fn extract_of_what_was_read() {
    let artifact = combine_with_video(Ok(vec![5, 6]), Ok(vec![7]), "xyz", "grasp").unwrap();
    let parts = extract_artifact(Ok(artifact.clone())).unwrap();
    assert_eq!(parts.video, vec![5, 6]);
    assert_eq!(parts.recording, vec![7]);
    assert_eq!(parts.uuid, "xyz");
    assert_eq!(parts.task, "grasp");
    assert_eq!(extract_artifact(Err(ReadFailure::NotFound)), Err(KRecError::NotFound));
    assert_eq!(extract_artifact(Err(ReadFailure::Unreadable)), Err(KRecError::IoFailure));
    assert_eq!(
        extract_artifact(Ok(artifact[..artifact.len() - 1].to_vec())),
        Err(KRecError::DecodeFailure(DecodeError::Truncated))
    );
    assert_eq!(
        extract_artifact(Ok(b"KREC\x01\x00".to_vec())),
        Err(KRecError::DecodeFailure(DecodeError::BadMagic))
    );
}

#[test]
fn partial_path_is_beside_the_destination() {
    assert_eq!(partial_path("run.krec"), "run.krec.partial");
    assert_eq!(partial_path("/data/a b/run.krec"), "/data/a b/run.krec.partial");
    assert_eq!(partial_path(""), ".partial");
}
