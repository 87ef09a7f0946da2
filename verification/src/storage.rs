//! Saving, loading and combining, seen from the library's side of the file
//! system.
//!
//! The caller reads and writes the files. These functions say what is to be
//! written, and what to make of what was read: a recording, an artifact, or
//! one of the five kinds of failure. Where they fail they hand back no byte,
//! so that nothing is written.

use crate::codec::container::{recording_bytes, recording_from_bytes};
use crate::codec::header::header_refusal;
use crate::combine::{
    artifact_bytes, artifact_from_bytes, combine, combine_refusal, extract, Artifact,
    ArtifactView,
};
use crate::error::{KRecError, ReadFailure};
use crate::recording::{KRec, KRecView};
use vstd::prelude::*;
use vstd::string::StringExecFns;

verus! {

/// The kind of failure that a failed read is.
pub open spec fn read_error(failure: ReadFailure) -> KRecError {
    match failure {
        ReadFailure::NotFound => KRecError::NotFound,
        ReadFailure::Unreadable => KRecError::IoFailure,
    }
}

/// The outcome of reading a file, with the bytes as a mathematical value.
pub open spec fn read_view(read: Result<Vec<u8>, ReadFailure>) -> Result<Seq<u8>, ReadFailure> {
    match read {
        Ok(bytes) => Ok(bytes@),
        Err(failure) => Err(failure),
    }
}

/// What saving a recording comes to: the bytes to write, or an encode
/// failure for the reason for which the header cannot be written.
pub open spec fn save_outcome(recording: KRecView) -> Result<Seq<u8>, KRecError> {
    match header_refusal(recording.header) {
        Some(e) => Err(KRecError::EncodeFailure(e)),
        None => Ok(recording_bytes(recording)),
    }
}

/// What loading comes to, given the outcome of reading the file: the failure
/// of the read, or the recording that the bytes hold, or a decode failure for
/// the reason for which they hold none.
pub open spec fn load_outcome(read: Result<Seq<u8>, ReadFailure>) -> Result<KRecView, KRecError> {
    match read {
        Err(failure) => Err(read_error(failure)),
        Ok(bytes) => match recording_from_bytes(bytes) {
            Ok(recording) => Ok(recording),
            Err(e) => Err(KRecError::DecodeFailure(e)),
        },
    }
}

/// What combining comes to, given the outcomes of reading the video and the
/// recording: the failure to read the video, else the failure to read the
/// recording, else a combine failure for the reason for which the two cannot
/// be combined, else the bytes of the artifact.
pub open spec fn combine_outcome(
    video: Result<Seq<u8>, ReadFailure>,
    recording: Result<Seq<u8>, ReadFailure>,
    uuid: Seq<char>,
    task: Seq<char>,
) -> Result<Seq<u8>, KRecError> {
    match video {
        Err(failure) => Err(read_error(failure)),
        Ok(video) => match recording {
            Err(failure) => Err(read_error(failure)),
            Ok(recording) => {
                let artifact = ArtifactView { uuid, task, video, recording };
                match combine_refusal(artifact) {
                    Some(e) => Err(KRecError::CombineFailure(e)),
                    None => Ok(artifact_bytes(artifact)),
                }
            },
        },
    }
}

/// What taking an artifact apart comes to, given the outcome of reading the
/// file: the failure of the read, or what the bytes hold, or a decode failure
/// for the reason for which they hold no artifact.
pub open spec fn extract_outcome(read: Result<Seq<u8>, ReadFailure>) -> Result<
    ArtifactView,
    KRecError,
> {
    match read {
        Err(failure) => Err(read_error(failure)),
        Ok(bytes) => match artifact_from_bytes(bytes) {
            Ok(artifact) => Ok(artifact),
            Err(e) => Err(KRecError::DecodeFailure(e)),
        },
    }
}

/// The path of the partial file to which a file is written before it is
/// moved to `path`, so that no reader sees it half-written: that path, with
/// `.partial` after it.
pub fn partial_path(path: &str) -> (partial: String)
    ensures
        partial@ == path@ + ".partial"@,
{
    let mut partial = String::from_str(path);
    partial.append(".partial");
    partial
}

/// The path of the intermediate file in which a recording is kept while it
/// is combined into the artifact at `output_path`: that path, with
/// `.tmp.krec` after it.
pub fn intermediate_path(output_path: &str) -> (path: String)
    ensures
        path@ == output_path@ + ".tmp.krec"@,
{
    let mut path = String::from_str(output_path);
    path.append(".tmp.krec");
    path
}

/// The kind of failure that a failed read is.
fn failed_read(failure: ReadFailure) -> (e: KRecError)
    ensures
        e == read_error(failure),
{
    match failure {
        ReadFailure::NotFound => KRecError::NotFound,
        ReadFailure::Unreadable => KRecError::IoFailure,
    }
}

/// The bytes that saving a recording writes, or the reason for which the
/// recording cannot be saved.
pub fn save(recording: &KRec) -> (r: Result<Vec<u8>, KRecError>)
    ensures
        match r {
            Ok(bytes) => save_outcome(recording@) == Ok::<Seq<u8>, KRecError>(bytes@),
            Err(e) => save_outcome(recording@) == Err::<Seq<u8>, KRecError>(e),
        },
{
    match recording.to_bytes() {
        Ok(bytes) => Ok(bytes),
        Err(e) => Err(KRecError::EncodeFailure(e)),
    }
}

/// The recording that loading yields from the outcome of reading a file: a
/// file that is not there is not found, one that could not be read is an I/O
/// failure, and bytes that hold no recording are a decode failure.
pub fn load(read: Result<Vec<u8>, ReadFailure>) -> (r: Result<KRec, KRecError>)
    ensures
        match r {
            Ok(recording) => load_outcome(read_view(read)) == Ok::<KRecView, KRecError>(
                recording@,
            ),
            Err(e) => load_outcome(read_view(read)) == Err::<KRecView, KRecError>(e),
        },
{
    match read {
        Err(failure) => Err(failed_read(failure)),
        Ok(bytes) => match KRec::from_bytes(bytes.as_slice()) {
            Ok(recording) => Ok(recording),
            Err(e) => Err(KRecError::DecodeFailure(e)),
        },
    }
}

/// The bytes of the artifact that combines a video and a recording, from the
/// outcomes of reading the two files; or the reason for which there is no
/// artifact to write.
pub fn combine_with_video(
    video: Result<Vec<u8>, ReadFailure>,
    recording: Result<Vec<u8>, ReadFailure>,
    uuid: &str,
    task: &str,
) -> (r: Result<Vec<u8>, KRecError>)
    ensures
        match r {
            Ok(bytes) => combine_outcome(read_view(video), read_view(recording), uuid@, task@)
                == Ok::<Seq<u8>, KRecError>(bytes@),
            Err(e) => combine_outcome(read_view(video), read_view(recording), uuid@, task@)
                == Err::<Seq<u8>, KRecError>(e),
        },
{
    let video = match video {
        Ok(video) => video,
        Err(failure) => {
            return Err(failed_read(failure));
        },
    };
    let recording = match recording {
        Ok(recording) => recording,
        Err(failure) => {
            return Err(failed_read(failure));
        },
    };
    match combine(video.as_slice(), recording.as_slice(), uuid, task) {
        Ok(bytes) => Ok(bytes),
        Err(e) => Err(KRecError::CombineFailure(e)),
    }
}

/// The video, the recording and the labels that an artifact holds, from the
/// outcome of reading its file.
pub fn extract_artifact(read: Result<Vec<u8>, ReadFailure>) -> (r: Result<Artifact, KRecError>)
    ensures
        match r {
            Ok(artifact) => extract_outcome(read_view(read)) == Ok::<ArtifactView, KRecError>(
                artifact@,
            ),
            Err(e) => extract_outcome(read_view(read)) == Err::<ArtifactView, KRecError>(e),
        },
{
    match read {
        Err(failure) => Err(failed_read(failure)),
        Ok(bytes) => match extract(bytes.as_slice()) {
            Ok(artifact) => Ok(artifact),
            Err(e) => Err(KRecError::DecodeFailure(e)),
        },
    }
}

} // verus!
