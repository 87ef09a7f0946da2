//! The combined artifact: a video and a recording in one container, with the
//! identifier and the task that the artifact is labelled with.
//!
//! The video and the recording are carried as they are, byte for byte, next
//! to each other: neither is read, re-encoded or changed. The artifact is a
//! signature, the version of the format, the two labels, each behind its
//! length in two bytes, and then the video and the recording, each in a block.

use crate::error::{CombineError, DecodeError};
use crate::payload::{read_text, text_fits};
use crate::wire::{
    block, find_block, get_le, le_bytes, le_value, lemma_le_bytes_len, lemma_le_roundtrip,
    lemma_le_value_bound, lemma_radix_pow_values, lemma_take_block, lemma_take_block_cut,
    put_block, put_bytes, put_le, take_block, MAX_PAYLOAD,
};
use vstd::prelude::*;
use vstd::utf8::{decode_utf8, encode_utf8, valid_utf8};

verus! {

/// The version of the artifact format that this library writes, and the only
/// one that it reads.
pub const ARTIFACT_VERSION: u16 = 1;

/// The signature that every artifact starts with: the letters KRVC.
pub open spec fn artifact_magic() -> Seq<u8> {
    seq![0x4Bu8, 0x52u8, 0x56u8, 0x43u8]
}

/// What an artifact holds.
#[derive(Clone, Debug, PartialEq, Eq)]
pub struct Artifact {
    /// The identifier that the artifact is labelled with.
    pub uuid: String,
    /// The task that the artifact is labelled with.
    pub task: String,
    /// The bytes of the video.
    pub video: Vec<u8>,
    /// The bytes of the recording.
    pub recording: Vec<u8>,
}

/// An artifact as a mathematical value.
pub struct ArtifactView {
    pub uuid: Seq<char>,
    pub task: Seq<char>,
    pub video: Seq<u8>,
    pub recording: Seq<u8>,
}

impl View for Artifact {
    type V = ArtifactView;

    open spec fn view(&self) -> ArtifactView {
        ArtifactView {
            uuid: self.uuid@,
            task: self.task@,
            video: self.video@,
            recording: self.recording@,
        }
    }
}

/// The bytes of a label: the length of its UTF-8 form in two bytes, then that
/// form.
pub open spec fn label_bytes(label: Seq<char>) -> Seq<u8> {
    le_bytes(encode_utf8(label).len(), 2) + encode_utf8(label)
}

/// The bytes of an artifact.
pub open spec fn artifact_bytes(a: ArtifactView) -> Seq<u8> {
    artifact_magic() + le_bytes(ARTIFACT_VERSION as nat, 2) + label_bytes(a.uuid) + label_bytes(
        a.task,
    ) + block(a.video) + block(a.recording)
}

/// The label that `bytes` start with and what follows it.
pub open spec fn take_label(bytes: Seq<u8>) -> Result<(Seq<char>, Seq<u8>), DecodeError> {
    if bytes.len() < 2 {
        Err(DecodeError::Truncated)
    } else {
        let size = le_value(bytes.subrange(0, 2)) as int;
        if bytes.len() - 2 < size {
            Err(DecodeError::Truncated)
        } else if !valid_utf8(bytes.subrange(2, 2 + size)) {
            Err(DecodeError::InvalidText)
        } else {
            Ok((decode_utf8(bytes.subrange(2, 2 + size)), bytes.skip(2 + size)))
        }
    }
}

/// The video and the recording that follow the labels of an artifact, with
/// nothing after them.
pub open spec fn take_streams(bytes: Seq<u8>) -> Result<(Seq<u8>, Seq<u8>), DecodeError> {
    match take_block(bytes) {
        None => Err(DecodeError::Truncated),
        Some((video, rest)) => match take_block(rest) {
            None => Err(DecodeError::Truncated),
            Some((recording, tail)) => if tail.len() == 0 {
                Ok((video, recording))
            } else {
                Err(DecodeError::TrailingBytes)
            },
        },
    }
}

/// What bytes hold as an artifact, or the first reason, in reading order, for
/// which they hold none.
pub open spec fn artifact_from_bytes(bytes: Seq<u8>) -> Result<ArtifactView, DecodeError> {
    if bytes.len() < 4 {
        Err(DecodeError::Truncated)
    } else if bytes.subrange(0, 4) != artifact_magic() {
        Err(DecodeError::BadMagic)
    } else if bytes.len() < 6 {
        Err(DecodeError::Truncated)
    } else if le_value(bytes.subrange(4, 6)) != ARTIFACT_VERSION {
        Err(DecodeError::UnsupportedVersion { found: le_value(bytes.subrange(4, 6)) as u16 })
    } else {
        match take_label(bytes.skip(6)) {
            Err(e) => Err(e),
            Ok((uuid, after_uuid)) => match take_label(after_uuid) {
                Err(e) => Err(e),
                Ok((task, after_task)) => match take_streams(after_task) {
                    Err(e) => Err(e),
                    Ok((video, recording)) => Ok(ArtifactView { uuid, task, video, recording }),
                },
            },
        }
    }
}

/// Why a video, a recording and two labels cannot be combined, if they
/// cannot: an empty video comes before an identifier that is too long, and
/// that before a task that is too long.
pub open spec fn combine_refusal(a: ArtifactView) -> Option<CombineError> {
    if a.video.len() == 0 {
        Some(CombineError::EmptyVideo)
    } else if !text_fits(a.uuid) {
        Some(CombineError::UuidTooLong)
    } else if !text_fits(a.task) {
        Some(CombineError::TaskTooLong)
    } else {
        None
    }
}

/// What can be combined: nothing refuses it, and the sizes of the video and
/// of the recording can be counted in eight bytes, as they always can for
/// bytes held in memory.
pub open spec fn combinable(a: ArtifactView) -> bool {
    &&& combine_refusal(a) is None
    &&& a.video.len() <= u64::MAX
    &&& a.recording.len() <= u64::MAX
}

/// A label that fits is taken off the front of what it was put in front of.
pub proof fn lemma_take_label(label: Seq<char>, tail: Seq<u8>)
    requires
        text_fits(label),
    ensures
        take_label(label_bytes(label) + tail) == Ok::<(Seq<char>, Seq<u8>), DecodeError>(
            (label, tail),
        ),
{
    let text = encode_utf8(label);
    let bytes = label_bytes(label) + tail;
    lemma_le_bytes_len(text.len(), 2);
    lemma_radix_pow_values();
    lemma_le_roundtrip(text.len(), 2);
    vstd::utf8::encode_utf8_valid_utf8(label);
    vstd::utf8::encode_utf8_decode_utf8(label);
    assert(bytes.subrange(0, 2) =~= le_bytes(text.len(), 2));
    assert(bytes.subrange(2, 2 + text.len() as int) =~= text);
    assert(bytes.skip(2 + text.len() as int) =~= tail);
}

/// Of a label that fits and what follows it, cut short: the cut is noticed
/// where it falls inside the label, and the whole label is taken where it
/// falls behind.
pub proof fn lemma_take_label_cut(label: Seq<char>, tail: Seq<u8>, keep: int)
    requires
        text_fits(label),
        0 <= keep <= (label_bytes(label) + tail).len(),
    ensures
        keep < label_bytes(label).len() ==> take_label((label_bytes(label) + tail).take(keep))
            == Err::<(Seq<char>, Seq<u8>), DecodeError>(DecodeError::Truncated),
        keep >= label_bytes(label).len() ==> take_label((label_bytes(label) + tail).take(keep))
            == Ok::<(Seq<char>, Seq<u8>), DecodeError>(
            (label, tail.take(keep - label_bytes(label).len())),
        ),
{
    let text = encode_utf8(label);
    let bytes = label_bytes(label) + tail;
    let cut = bytes.take(keep);
    lemma_le_bytes_len(text.len(), 2);
    lemma_radix_pow_values();
    lemma_le_roundtrip(text.len(), 2);
    vstd::utf8::encode_utf8_valid_utf8(label);
    vstd::utf8::encode_utf8_decode_utf8(label);
    if keep >= 2 {
        assert(cut.subrange(0, 2) =~= le_bytes(text.len(), 2));
        if keep >= 2 + text.len() {
            assert(cut.subrange(2, 2 + text.len() as int) =~= text);
            assert(cut.skip(2 + text.len() as int) =~= tail.take(keep - 2 - text.len()));
        }
    }
}

/// What can be combined is taken apart again without loss: the same video,
/// the same recording and the same labels.
pub proof fn lemma_artifact_roundtrip(a: ArtifactView)
    requires
        combinable(a),
    ensures
        artifact_from_bytes(artifact_bytes(a)) == Ok::<ArtifactView, DecodeError>(a),
{
    let head = artifact_magic() + le_bytes(ARTIFACT_VERSION as nat, 2);
    let streams = block(a.video) + block(a.recording);
    let after_uuid = label_bytes(a.task) + streams;
    let after_head = label_bytes(a.uuid) + after_uuid;
    let bytes = artifact_bytes(a);
    lemma_le_bytes_len(ARTIFACT_VERSION as nat, 2);
    lemma_radix_pow_values();
    lemma_le_roundtrip(ARTIFACT_VERSION as nat, 2);
    assert(bytes =~= head + after_head);
    assert(bytes.subrange(0, 4) =~= artifact_magic());
    assert(bytes.subrange(4, 6) =~= le_bytes(ARTIFACT_VERSION as nat, 2));
    assert(bytes.skip(6) =~= after_head);
    lemma_take_label(a.uuid, after_uuid);
    lemma_take_label(a.task, streams);
    lemma_take_block(a.video, block(a.recording));
    lemma_take_block(a.recording, Seq::<u8>::empty());
    assert(block(a.recording) + Seq::<u8>::empty() =~= block(a.recording));
}

/// The bytes of an artifact, cut short anywhere, are refused as truncated:
/// no part of an artifact is taken for an artifact.
pub proof fn lemma_artifact_cut(a: ArtifactView, keep: int)
    requires
        combinable(a),
        0 <= keep < artifact_bytes(a).len(),
    ensures
        artifact_from_bytes(artifact_bytes(a).take(keep)) == Err::<ArtifactView, DecodeError>(
            DecodeError::Truncated,
        ),
{
    let head = artifact_magic() + le_bytes(ARTIFACT_VERSION as nat, 2);
    let streams = block(a.video) + block(a.recording);
    let after_uuid = label_bytes(a.task) + streams;
    let after_head = label_bytes(a.uuid) + after_uuid;
    let bytes = artifact_bytes(a);
    let cut = bytes.take(keep);
    lemma_le_bytes_len(ARTIFACT_VERSION as nat, 2);
    lemma_le_bytes_len(a.video.len(), 8);
    lemma_le_bytes_len(a.recording.len(), 8);
    lemma_radix_pow_values();
    lemma_le_roundtrip(ARTIFACT_VERSION as nat, 2);
    assert(bytes =~= head + after_head);
    if keep >= 4 {
        assert(cut.subrange(0, 4) =~= artifact_magic());
    }
    if keep >= 6 {
        assert(cut.subrange(4, 6) =~= le_bytes(ARTIFACT_VERSION as nat, 2));
        assert(cut.skip(6) =~= after_head.take(keep - 6));
        lemma_take_label_cut(a.uuid, after_uuid, keep - 6);
        let left1 = keep - 6 - label_bytes(a.uuid).len();
        if left1 >= 0 {
            lemma_take_label_cut(a.task, streams, left1);
            let left2 = left1 - label_bytes(a.task).len();
            if left2 >= 0 {
                lemma_take_block_cut(a.video, block(a.recording), left2);
                let left3 = left2 - 8 - a.video.len();
                if left3 >= 0 {
                    assert(block(a.recording) + Seq::<u8>::empty() =~= block(a.recording));
                    lemma_take_block_cut(a.recording, Seq::<u8>::empty(), left3);
                }
            }
        }
    }
}

/// Appends a label if it fits, and says whether it did.
fn put_label(out: &mut Vec<u8>, label: &str) -> (fits: bool)
    ensures
        fits == text_fits(label@),
        fits ==> final(out)@ == old(out)@ + label_bytes(label@),
        !fits ==> final(out)@ == old(out)@,
{
    let text = label.as_bytes();
    if text.len() > MAX_PAYLOAD {
        return false;
    }
    put_le(out, text.len() as u64, 2);
    put_bytes(out, text);
    proof {
        assert(out@ =~= old(out)@ + (le_bytes(text@.len(), 2) + text@));
    }
    true
}

/// Reads the label that starts at `at`, and finds where it ends.
fn read_label(bytes: &[u8], at: usize) -> (r: Result<(String, usize), DecodeError>)
    requires
        at <= bytes@.len(),
    ensures
        match r {
            Ok((label, end)) => {
                &&& at <= end <= bytes@.len()
                &&& take_label(bytes@.skip(at as int)) == Ok::<(Seq<char>, Seq<u8>), DecodeError>(
                    (label@, bytes@.skip(end as int)),
                )
            },
            Err(e) => take_label(bytes@.skip(at as int)) == Err::<
                (Seq<char>, Seq<u8>),
                DecodeError,
            >(e),
        },
{
    let total: usize = bytes.len();
    let ghost here = bytes@.skip(at as int);
    if total - at < 2 {
        return Err(DecodeError::Truncated);
    }
    let size: usize = get_le(bytes, at, 2) as usize;
    proof {
        assert(here.subrange(0, 2) =~= bytes@.subrange(at as int, at + 2));
        lemma_le_value_bound(here.subrange(0, 2));
        lemma_radix_pow_values();
    }
    if total - at - 2 < size {
        return Err(DecodeError::Truncated);
    }
    let end: usize = at + 2 + size;
    let text = vstd::slice::slice_subrange(bytes, at + 2, end);
    proof {
        assert(here.subrange(2, 2 + size) =~= text@);
        assert(here.skip(2 + size) =~= bytes@.skip(end as int));
    }
    match read_text(text) {
        Ok(label) => Ok((label, end)),
        Err(e) => Err(e),
    }
}

/// Combines a video and a recording into the bytes of one artifact, labelled
/// with the given identifier and task; or refuses where the video is empty
/// or a label is too long.
pub fn combine(video: &[u8], recording: &[u8], uuid: &str, task: &str) -> (r: Result<
    Vec<u8>,
    CombineError,
>)
    ensures
        ({
            let a = ArtifactView {
                uuid: uuid@,
                task: task@,
                video: video@,
                recording: recording@,
            };
            &&& r is Ok <==> combine_refusal(a) is None
            &&& match r {
                Ok(bytes) => combinable(a) && bytes@ == artifact_bytes(a),
                Err(e) => combine_refusal(a) == Some(e),
            }
        }),
{
    let video_size: usize = video.len();
    let recording_size: usize = recording.len();
    if video_size == 0 {
        return Err(CombineError::EmptyVideo);
    }
    let mut bytes: Vec<u8> = Vec::new();
    bytes.push(0x4B);
    bytes.push(0x52);
    bytes.push(0x56);
    bytes.push(0x43);
    put_le(&mut bytes, ARTIFACT_VERSION as u64, 2);
    if !put_label(&mut bytes, uuid) {
        return Err(CombineError::UuidTooLong);
    }
    if !put_label(&mut bytes, task) {
        return Err(CombineError::TaskTooLong);
    }
    put_block(&mut bytes, video);
    put_block(&mut bytes, recording);
    proof {
        let a = ArtifactView { uuid: uuid@, task: task@, video: video@, recording: recording@ };
        assert(bytes@ =~= artifact_bytes(a));
        assert(a.video.len() == video_size && a.recording.len() == recording_size);
    }
    Ok(bytes)
}

/// Takes an artifact apart, or says for which reason, the first in reading
/// order, the bytes hold none.
pub fn extract(bytes: &[u8]) -> (r: Result<Artifact, DecodeError>)
    ensures
        match r {
            Ok(a) => artifact_from_bytes(bytes@) == Ok::<ArtifactView, DecodeError>(a@),
            Err(e) => artifact_from_bytes(bytes@) == Err::<ArtifactView, DecodeError>(e),
        },
{
    let total: usize = bytes.len();
    if total < 4 {
        return Err(DecodeError::Truncated);
    }
    proof {
        let sign = bytes@.subrange(0, 4);
        assert(sign[0] == bytes@[0] && sign[1] == bytes@[1] && sign[2] == bytes@[2] && sign[3]
            == bytes@[3]);
        assert(artifact_magic()[0] == 0x4B && artifact_magic()[1] == 0x52 && artifact_magic()[2]
            == 0x56 && artifact_magic()[3] == 0x43);
        if bytes@[0] == 0x4B && bytes@[1] == 0x52 && bytes@[2] == 0x56 && bytes@[3] == 0x43 {
            assert(sign =~= artifact_magic());
        }
    }
    if bytes[0] != 0x4B || bytes[1] != 0x52 || bytes[2] != 0x56 || bytes[3] != 0x43 {
        return Err(DecodeError::BadMagic);
    }
    if total < 6 {
        return Err(DecodeError::Truncated);
    }
    let version = get_le(bytes, 4, 2);
    proof {
        lemma_le_value_bound(bytes@.subrange(4, 6));
        lemma_radix_pow_values();
    }
    if version != ARTIFACT_VERSION as u64 {
        return Err(DecodeError::UnsupportedVersion { found: version as u16 });
    }
    let (uuid, after_uuid) = match read_label(bytes, 6) {
        Ok(found) => found,
        Err(e) => {
            return Err(e);
        },
    };
    let (task, after_task) = match read_label(bytes, after_uuid) {
        Ok(found) => found,
        Err(e) => {
            return Err(e);
        },
    };
    let (video_start, video_end) = match find_block(bytes, after_task) {
        Some(found) => found,
        None => {
            return Err(DecodeError::Truncated);
        },
    };
    let (recording_start, recording_end) = match find_block(bytes, video_end) {
        Some(found) => found,
        None => {
            return Err(DecodeError::Truncated);
        },
    };
    if recording_end != total {
        return Err(DecodeError::TrailingBytes);
    }
    let video = vstd::slice::slice_to_vec(
        vstd::slice::slice_subrange(bytes, video_start, video_end),
    );
    let recording = vstd::slice::slice_to_vec(
        vstd::slice::slice_subrange(bytes, recording_start, recording_end),
    );
    Ok(Artifact { uuid, task, video, recording })
}

} // verus!
