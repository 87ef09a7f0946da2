//! What holds of every recording that is written and read back.

use crate::codec::actuator::{
    config_bytes, config_encodable, config_from_bytes, lemma_config_roundtrip,
    lemma_state_roundtrip, state_bytes, state_from_bytes,
};
use crate::codec::container::{
    frames_bytes, lemma_frames_bytes_push, lemma_frames_cut, lemma_frames_roundtrip, magic,
    recording_bytes, recording_encodable, recording_from_bytes, VERSION,
};
use crate::codec::frame::{
    frame_bytes, frame_from_bytes, frame_stepper, lemma_frame_roundtrip, TAG_IMU_VALUES,
};
use crate::codec::header::{
    header_bytes, header_from_bytes, header_stepper, lemma_header_roundtrip, TAG_ACTUATOR_CONFIG,
};
use crate::codec::imu::{imu_bytes, imu_from_bytes, lemma_imu_roundtrip};
use crate::combine::{artifact_bytes, combinable, lemma_artifact_roundtrip, ArtifactView};
use crate::error::{DecodeError, KRecError, ReadFailure};
use crate::record::lemma_absorb_passes_over;
use crate::recording::KRecView;
use crate::scalar::Float64;
use crate::schema::{
    ActuatorConfigView, ActuatorState, ImuValues, KRecFrameView, KRecHeaderView,
};
use crate::storage::{combine_outcome, extract_outcome, load_outcome, save_outcome};
use crate::wire::{
    block, fields_bytes, fields_fit, le_bytes, lemma_fields_fit_concat, lemma_le_bytes_len,
    lemma_le_roundtrip, lemma_parse_fields_roundtrip, lemma_radix_pow_values, lemma_take_block,
    lemma_take_block_cut, Field, MAX_PAYLOAD,
};
use vstd::prelude::*;

verus! {

/// A recording that can be written is read back from its bytes, equal in
/// every member: the same header, the same frames in the same order, each
/// optional member absent or present as it was.
pub proof fn lemma_recording_roundtrip(r: KRecView)
    requires
        recording_encodable(r),
    ensures
        recording_from_bytes(recording_bytes(r)) == Ok::<KRecView, DecodeError>(r),
{
    let head = magic() + le_bytes(VERSION as nat, 2);
    let body = header_bytes(r.header);
    let tail = le_bytes(r.frames.len(), 8) + frames_bytes(r.frames);
    let bytes = recording_bytes(r);
    lemma_le_bytes_len(VERSION as nat, 2);
    lemma_le_bytes_len(r.frames.len(), 8);
    lemma_le_bytes_len(body.len(), 8);
    lemma_radix_pow_values();
    lemma_le_roundtrip(VERSION as nat, 2);
    lemma_le_roundtrip(r.frames.len(), 8);
    assert(bytes =~= head + (block(body) + tail));
    assert(bytes.subrange(0, 4) =~= magic());
    assert(bytes.subrange(4, 6) =~= le_bytes(VERSION as nat, 2));
    assert(bytes.skip(6) =~= block(body) + tail);
    lemma_take_block(body, tail);
    lemma_header_roundtrip(r.header);
    assert(tail.subrange(0, 8) =~= le_bytes(r.frames.len(), 8));
    assert(tail.skip(8) =~= frames_bytes(r.frames));
    lemma_frames_roundtrip(r.frames);
}

/// The bytes of a recording, cut short anywhere, are refused as truncated:
/// no proper prefix of a written recording is taken for a recording.
pub proof fn lemma_recording_cut(r: KRecView, keep: int)
    requires
        recording_encodable(r),
        0 <= keep < recording_bytes(r).len(),
    ensures
        recording_from_bytes(recording_bytes(r).take(keep)) == Err::<KRecView, DecodeError>(
            DecodeError::Truncated,
        ),
{
    let head = magic() + le_bytes(VERSION as nat, 2);
    let body = header_bytes(r.header);
    let count = le_bytes(r.frames.len(), 8);
    let tail = count + frames_bytes(r.frames);
    let bytes = recording_bytes(r);
    let cut = bytes.take(keep);
    lemma_le_bytes_len(VERSION as nat, 2);
    lemma_le_bytes_len(r.frames.len(), 8);
    lemma_le_bytes_len(body.len(), 8);
    lemma_radix_pow_values();
    lemma_le_roundtrip(VERSION as nat, 2);
    lemma_le_roundtrip(r.frames.len(), 8);
    assert(bytes =~= head + (block(body) + tail));
    if keep >= 4 {
        assert(cut.subrange(0, 4) =~= magic());
    }
    if keep >= 6 {
        assert(cut.subrange(4, 6) =~= le_bytes(VERSION as nat, 2));
        assert(cut.skip(6) =~= (block(body) + tail).take(keep - 6));
        lemma_take_block_cut(body, tail, keep - 6);
        if keep - 6 >= 8 + body.len() {
            let left = keep - 6 - 8 - body.len();
            let rest = tail.take(left);
            lemma_header_roundtrip(r.header);
            if left >= 8 {
                assert(rest.subrange(0, 8) =~= count);
                assert(rest.skip(8) =~= frames_bytes(r.frames).take(left - 8));
                lemma_frames_cut(r.frames, left - 8);
            }
        }
    }
}

/// A recording that can be written is saved, and is loaded from what saving
/// wrote, equal in every member.
pub proof fn lemma_save_load(r: KRecView)
    requires
        recording_encodable(r),
    ensures
        save_outcome(r) == Ok::<Seq<u8>, KRecError>(recording_bytes(r)),
        load_outcome(Ok(recording_bytes(r))) == Ok::<KRecView, KRecError>(r),
{
    lemma_recording_roundtrip(r);
}

/// Loading from a file that is not there fails as not found, and loading
/// from a file that holds only the first bytes of what saving wrote, and not
/// all of them, fails as a decode failure.
pub proof fn lemma_load_failures(r: KRecView, keep: int)
    requires
        recording_encodable(r),
        0 <= keep < recording_bytes(r).len(),
    ensures
        load_outcome(Err(ReadFailure::NotFound)) == Err::<KRecView, KRecError>(
            KRecError::NotFound,
        ),
        load_outcome(Ok(recording_bytes(r).take(keep))) == Err::<KRecView, KRecError>(
            KRecError::DecodeFailure(DecodeError::Truncated),
        ),
{
    lemma_recording_cut(r, keep);
}

/// Combining with a video or a recording that could not be read fails as not
/// found or as an I/O failure, whatever the other input and the labels are,
/// and as not found where the input that failed first was not there. As the
/// combination then yields no byte, nothing is written.
pub proof fn lemma_combine_needs_both_inputs(
    video: Result<Seq<u8>, ReadFailure>,
    recording: Result<Seq<u8>, ReadFailure>,
    uuid: Seq<char>,
    task: Seq<char>,
)
    requires
        video is Err || recording is Err,
    ensures
        ({
            let outcome = combine_outcome(video, recording, uuid, task);
            &&& outcome == Err::<Seq<u8>, KRecError>(KRecError::NotFound) || outcome == Err::<
                Seq<u8>,
                KRecError,
            >(KRecError::IoFailure)
            &&& video == Err::<Seq<u8>, ReadFailure>(ReadFailure::NotFound) ==> outcome == Err::<
                Seq<u8>,
                KRecError,
            >(KRecError::NotFound)
            &&& video is Ok && recording == Err::<Seq<u8>, ReadFailure>(ReadFailure::NotFound)
                ==> outcome == Err::<Seq<u8>, KRecError>(KRecError::NotFound)
        }),
{
}

/// What can be combined is combined, and is taken apart again from what
/// combining wrote, without loss.
pub proof fn lemma_combine_extract(a: ArtifactView)
    requires
        combinable(a),
    ensures
        combine_outcome(Ok(a.video), Ok(a.recording), a.uuid, a.task) == Ok::<
            Seq<u8>,
            KRecError,
        >(artifact_bytes(a)),
        extract_outcome(Ok(artifact_bytes(a))) == Ok::<ArtifactView, KRecError>(a),
{
    lemma_artifact_roundtrip(a);
}

/// Two frames that are added to a recording, one after the other, are
/// written after the frames that were there, in the order in which they were
/// added, and are read back at the same places: the order of adding is the
/// order in the bytes and the order after reading.
pub proof fn lemma_frame_order(r: KRecView, first: KRecFrameView, second: KRecFrameView)
    requires
        recording_encodable(
            KRecView { header: r.header, frames: r.frames.push(first).push(second) },
        ),
    ensures
        ({
            let grown = KRecView { header: r.header, frames: r.frames.push(first).push(second) };
            let count = r.frames.len() as int;
            &&& frames_bytes(grown.frames) == frames_bytes(r.frames) + block(frame_bytes(first))
                + block(frame_bytes(second))
            &&& recording_from_bytes(recording_bytes(grown)) matches Ok(read)
            &&& read.frames.len() == count + 2
            &&& read.frames.take(count) == r.frames
            &&& read.frames[count] == first
            &&& read.frames[count + 1] == second
        }),
{
    let grown = KRecView { header: r.header, frames: r.frames.push(first).push(second) };
    lemma_recording_roundtrip(grown);
    lemma_frames_bytes_push(r.frames, first);
    lemma_frames_bytes_push(r.frames.push(first), second);
    assert(grown.frames.take(r.frames.len() as int) =~= r.frames);
}

/// Two recordings that can be written and differ in any member are written
/// differently.
pub proof fn lemma_recordings_differ(a: KRecView, b: KRecView)
    requires
        recording_encodable(a),
        recording_encodable(b),
        a != b,
    ensures
        recording_bytes(a) != recording_bytes(b),
{
    lemma_recording_roundtrip(a);
    lemma_recording_roundtrip(b);
}

/// A header in which a field of a tag that this version does not know stands
/// among the fields is read as the header without that field: what a later
/// version adds, this version passes over.
pub proof fn lemma_header_passes_over(before: Seq<Field>, unknown: Field, after: Seq<Field>)
    requires
        unknown.tag == 0 || unknown.tag > TAG_ACTUATOR_CONFIG,
        fields_fit(before),
        fields_fit(after),
        unknown.payload.len() <= MAX_PAYLOAD,
    ensures
        header_from_bytes(fields_bytes(before + seq![unknown] + after)) == header_from_bytes(
            fields_bytes(before + after),
        ),
{
    lemma_fields_fit_concat(before, seq![unknown]);
    lemma_fields_fit_concat(before + seq![unknown], after);
    lemma_fields_fit_concat(before, after);
    lemma_parse_fields_roundtrip(before + seq![unknown] + after);
    lemma_parse_fields_roundtrip(before + after);
    lemma_absorb_passes_over(header_stepper(), KRecHeaderView::empty(), before, unknown, after);
}

/// A frame in which a field of a tag that this version does not know stands
/// among the fields is read as the frame without that field.
pub proof fn lemma_frame_passes_over(before: Seq<Field>, unknown: Field, after: Seq<Field>)
    requires
        unknown.tag == 0 || unknown.tag > TAG_IMU_VALUES,
        fields_fit(before),
        fields_fit(after),
        unknown.payload.len() <= MAX_PAYLOAD,
    ensures
        frame_from_bytes(fields_bytes(before + seq![unknown] + after)) == frame_from_bytes(
            fields_bytes(before + after),
        ),
{
    lemma_fields_fit_concat(before, seq![unknown]);
    lemma_fields_fit_concat(before + seq![unknown], after);
    lemma_fields_fit_concat(before, after);
    lemma_parse_fields_roundtrip(before + seq![unknown] + after);
    lemma_parse_fields_roundtrip(before + after);
    lemma_absorb_passes_over(frame_stepper(), KRecFrameView::empty(), before, unknown, after);
}

/// A member that may be absent is kept by writing and reading: absent where
/// it was absent, and present with the same value where it was present, be
/// that value zero or not.
pub open spec fn kept<T>(written: Option<T>, read: Option<T>) -> bool {
    match written {
        None => read is None,
        Some(v) => read == Some(v),
    }
}

/// Each measurement of a state is kept: one that was not set is read back as
/// absent, never as zero, and one that was set to zero is read back as
/// present with the value zero.
pub proof fn lemma_state_members_kept(s: ActuatorState)
    ensures
        state_from_bytes(state_bytes(s)) matches Ok(read) && {
            &&& kept(s.position, read.position)
            &&& kept(s.velocity, read.velocity)
            &&& kept(s.torque, read.torque)
            &&& kept(s.temperature, read.temperature)
            &&& kept(s.voltage, read.voltage)
            &&& kept(s.current, read.current)
        },
{
    lemma_state_roundtrip(s);
}

/// Each parameter of a config that can be written, and its name, is kept.
pub proof fn lemma_config_members_kept(c: ActuatorConfigView)
    requires
        config_encodable(c),
    ensures
        config_from_bytes(config_bytes(c)) matches Ok(read) && {
            &&& kept(c.kp, read.kp)
            &&& kept(c.kd, read.kd)
            &&& kept(c.ki, read.ki)
            &&& kept(c.max_torque, read.max_torque)
            &&& kept(c.name, read.name)
        },
{
    lemma_config_roundtrip(c);
}

/// Each member of an IMU sample is kept.
pub proof fn lemma_imu_members_kept(imu: ImuValues)
    ensures
        imu_from_bytes(imu_bytes(imu)) matches Ok(read) && {
            &&& kept(imu.accel, read.accel)
            &&& kept(imu.gyro, read.gyro)
            &&& kept(imu.mag, read.mag)
            &&& kept(imu.quaternion, read.quaternion)
        },
{
    lemma_imu_roundtrip(imu);
}

/// The command and the IMU sample of a frame are kept.
pub proof fn lemma_frame_members_kept(f: KRecFrameView)
    ensures
        frame_from_bytes(frame_bytes(f)) matches Ok(read) && {
            &&& kept(f.actuator_commands, read.actuator_commands)
            &&& kept(f.imu_values, read.imu_values)
        },
{
    lemma_frame_roundtrip(f);
}

/// Two states that differ in any member are written differently; so a
/// state in which a measurement is absent and the state in which that
/// measurement is zero are.
pub proof fn lemma_states_differ(a: ActuatorState, b: ActuatorState)
    requires
        a != b,
    ensures
        state_bytes(a) != state_bytes(b),
        a.position is None ==> state_bytes(a) != state_bytes(
            ActuatorState { position: Some(Float64::zero()), ..a },
        ),
{
    lemma_state_roundtrip(a);
    lemma_state_roundtrip(b);
    lemma_state_roundtrip(ActuatorState { position: Some(Float64::zero()), ..a });
}

} // verus!
