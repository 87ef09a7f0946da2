//! The binary form of a frame.

use crate::codec::actuator::{
    command_bytes, command_from_bytes, decode_command, decode_state, encode_command, encode_state,
    lemma_command_roundtrip, lemma_state_roundtrip, state_bytes, state_from_bytes,
};
use crate::codec::imu::{decode_imu, encode_imu, imu_bytes, imu_from_bytes, lemma_imu_roundtrip};
use crate::error::DecodeError;
use crate::payload::{lemma_u64_field, payload_u64, put_u64, read_u64, u64_field};
use crate::record::{
    absorb, lemma_absorb_append, lemma_absorb_next, lemma_absorb_one, lemma_absorb_optional,
    read_record, Step,
};
use crate::schema::{ActuatorCommand, ActuatorState, ImuValues, KRecFrame, KRecFrameView};
use crate::wire::{
    fields_bytes, fields_fit, lemma_fields_bytes_concat, lemma_fields_bytes_push,
    lemma_fields_bytes_single, lemma_fields_fit_concat, lemma_parse_fields_roundtrip,
    parse_fields, put_field, raw_views, split_fields, Field, RawField, MAX_PAYLOAD,
};
use vstd::prelude::*;

verus! {

/// The tag of the video timestamp.
pub const TAG_VIDEO_TIMESTAMP: u8 = 1;

/// The tag of the frame number.
pub const TAG_FRAME_NUMBER: u8 = 2;

/// The tag of the inference step.
pub const TAG_INFERENCE_STEP: u8 = 3;

/// The tag of an actuator state; the frame has one such field for each.
pub const TAG_ACTUATOR_STATE: u8 = 4;

/// The tag of the actuator command.
pub const TAG_ACTUATOR_COMMANDS: u8 = 5;

/// The tag of the IMU sample.
pub const TAG_IMU_VALUES: u8 = 6;

/// The fields of the three counters of a frame.
pub open spec fn frame_counter_fields(f: KRecFrameView) -> Seq<Field> {
    seq![
        u64_field(TAG_VIDEO_TIMESTAMP, f.video_timestamp),
        u64_field(TAG_FRAME_NUMBER, f.frame_number),
        u64_field(TAG_INFERENCE_STEP, f.inference_step),
    ]
}

/// The fields of a list of states: one for each, in the order of the list.
pub open spec fn state_list_fields(states: Seq<ActuatorState>) -> Seq<Field> {
    Seq::new(
        states.len(),
        |i: int| Field { tag: TAG_ACTUATOR_STATE, payload: state_bytes(states[i]) },
    )
}

/// The field of the command: none where the frame has no command.
pub open spec fn optional_command(command: Option<ActuatorCommand>) -> Seq<Field> {
    match command {
        Some(c) => seq![Field { tag: TAG_ACTUATOR_COMMANDS, payload: command_bytes(c) }],
        None => Seq::empty(),
    }
}

/// The field of the IMU sample: none where the frame has no sample.
pub open spec fn optional_imu(imu: Option<ImuValues>) -> Seq<Field> {
    match imu {
        Some(v) => seq![Field { tag: TAG_IMU_VALUES, payload: imu_bytes(v) }],
        None => Seq::empty(),
    }
}

/// The fields of a frame: the counters, the states, then the command and the
/// IMU sample where there are any.
pub open spec fn frame_fields(f: KRecFrameView) -> Seq<Field> {
    frame_counter_fields(f) + state_list_fields(f.actuator_states) + optional_command(
        f.actuator_commands,
    ) + optional_imu(f.imu_values)
}

/// What one field does to a frame. A state field adds its state after those
/// already there.
pub open spec fn frame_step(f: KRecFrameView, field: Field) -> Result<KRecFrameView, DecodeError> {
    if field.tag == TAG_VIDEO_TIMESTAMP {
        match payload_u64(field.payload) {
            Ok(video_timestamp) => Ok(KRecFrameView { video_timestamp, ..f }),
            Err(e) => Err(e),
        }
    } else if field.tag == TAG_FRAME_NUMBER {
        match payload_u64(field.payload) {
            Ok(frame_number) => Ok(KRecFrameView { frame_number, ..f }),
            Err(e) => Err(e),
        }
    } else if field.tag == TAG_INFERENCE_STEP {
        match payload_u64(field.payload) {
            Ok(inference_step) => Ok(KRecFrameView { inference_step, ..f }),
            Err(e) => Err(e),
        }
    } else if field.tag == TAG_ACTUATOR_STATE {
        match state_from_bytes(field.payload) {
            Ok(state) => Ok(KRecFrameView { actuator_states: f.actuator_states.push(state), ..f }),
            Err(e) => Err(e),
        }
    } else if field.tag == TAG_ACTUATOR_COMMANDS {
        match command_from_bytes(field.payload) {
            Ok(command) => Ok(KRecFrameView { actuator_commands: Some(command), ..f }),
            Err(e) => Err(e),
        }
    } else if field.tag == TAG_IMU_VALUES {
        match imu_from_bytes(field.payload) {
            Ok(imu) => Ok(KRecFrameView { imu_values: Some(imu), ..f }),
            Err(e) => Err(e),
        }
    } else {
        Ok(f)
    }
}

/// `frame_step` as a value.
pub open spec fn frame_stepper() -> Step<KRecFrameView> {
    |f: KRecFrameView, field: Field| frame_step(f, field)
}

/// The bytes of a frame.
pub open spec fn frame_bytes(f: KRecFrameView) -> Seq<u8> {
    fields_bytes(frame_fields(f))
}

/// The frame that bytes hold: the empty frame, changed by each field in turn.
pub open spec fn frame_from_bytes(bytes: Seq<u8>) -> Result<KRecFrameView, DecodeError> {
    read_record(frame_stepper(), KRecFrameView::empty(), bytes)
}

/// Taking in the fields of states adds those states, in order, after the
/// states already there.
proof fn lemma_absorb_states(f: KRecFrameView, states: Seq<ActuatorState>)
    ensures
        absorb(frame_stepper(), f, state_list_fields(states)) == Ok::<KRecFrameView, DecodeError>(
            KRecFrameView { actuator_states: f.actuator_states + states, ..f },
        ),
        fields_fit(state_list_fields(states)),
    decreases states.len(),
{
    let parts = state_list_fields(states);
    assert forall|i: int| 0 <= i < parts.len() implies (#[trigger] parts[i]).payload.len()
        <= MAX_PAYLOAD by {
        lemma_state_roundtrip(states[i]);
    }
    if states.len() == 0 {
        assert(f.actuator_states + states =~= f.actuator_states);
    } else {
        let rest = states.skip(1);
        let next = KRecFrameView { actuator_states: f.actuator_states.push(states[0]), ..f };
        lemma_state_roundtrip(states[0]);
        lemma_absorb_states(next, rest);
        lemma_absorb_next(frame_stepper(), f, parts);
        assert(parts.skip(1) =~= state_list_fields(rest));
        assert(next.actuator_states + rest =~= f.actuator_states + states);
    }
}

/// A frame is read back from its bytes.
pub proof fn lemma_frame_roundtrip(f: KRecFrameView)
    ensures
        frame_from_bytes(frame_bytes(f)) == Ok::<KRecFrameView, DecodeError>(f),
{
    let step = frame_stepper();
    let f1 = u64_field(TAG_VIDEO_TIMESTAMP, f.video_timestamp);
    let f2 = u64_field(TAG_FRAME_NUMBER, f.frame_number);
    let f3 = u64_field(TAG_INFERENCE_STEP, f.inference_step);
    let none = Seq::<Field>::empty();
    let s0 = KRecFrameView::empty();
    let s1 = KRecFrameView { video_timestamp: f.video_timestamp, ..s0 };
    let s2 = KRecFrameView { frame_number: f.frame_number, ..s1 };
    let s3 = KRecFrameView { inference_step: f.inference_step, ..s2 };
    let s4 = KRecFrameView { actuator_states: f.actuator_states, ..s3 };
    let s5 = KRecFrameView { actuator_commands: f.actuator_commands, ..s4 };
    let counters = frame_counter_fields(f);
    let states = state_list_fields(f.actuator_states);
    let command = optional_command(f.actuator_commands);
    let imu = optional_imu(f.imu_values);
    lemma_u64_field(TAG_VIDEO_TIMESTAMP, f.video_timestamp);
    lemma_u64_field(TAG_FRAME_NUMBER, f.frame_number);
    lemma_u64_field(TAG_INFERENCE_STEP, f.inference_step);
    lemma_absorb_one(step, s0, f1);
    lemma_absorb_one(step, s1, f2);
    lemma_absorb_one(step, s2, f3);
    lemma_absorb_append(step, s0, none, seq![f1], s0, s1);
    lemma_absorb_append(step, s0, none + seq![f1], seq![f2], s1, s2);
    lemma_absorb_append(step, s0, none + seq![f1] + seq![f2], seq![f3], s2, s3);
    assert(counters =~= none + seq![f1] + seq![f2] + seq![f3]);
    assert(fields_fit(counters));
    lemma_absorb_states(s3, f.actuator_states);
    assert(s3.actuator_states + f.actuator_states =~= f.actuator_states);
    match f.actuator_commands {
        Some(c) => {
            lemma_command_roundtrip(c);
        },
        None => {},
    }
    match f.imu_values {
        Some(v) => {
            lemma_imu_roundtrip(v);
        },
        None => {},
    }
    assert(fields_fit(command));
    assert(fields_fit(imu));
    lemma_absorb_optional(step, s4, command, s5);
    lemma_absorb_optional(step, s5, imu, f);
    lemma_absorb_append(step, s0, counters, states, s3, s4);
    lemma_absorb_append(step, s0, counters + states, command, s4, s5);
    lemma_absorb_append(step, s0, counters + states + command, imu, s5, f);
    lemma_fields_fit_concat(counters, states);
    lemma_fields_fit_concat(counters + states, command);
    lemma_fields_fit_concat(counters + states + command, imu);
    lemma_parse_fields_roundtrip(frame_fields(f));
}

/// Writes a frame.
pub fn encode_frame(f: &KRecFrame) -> (bytes: Vec<u8>)
    ensures
        bytes@ == frame_bytes(f@),
{
    let mut bytes: Vec<u8> = Vec::new();
    let ghost f1 = u64_field(TAG_VIDEO_TIMESTAMP, f.video_timestamp);
    let ghost f2 = u64_field(TAG_FRAME_NUMBER, f.frame_number);
    let ghost f3 = u64_field(TAG_INFERENCE_STEP, f.inference_step);
    let ghost none = Seq::<Field>::empty();
    let ghost counters = frame_counter_fields(f@);
    let ghost states = f@.actuator_states;
    let ghost command = optional_command(f.actuator_commands);
    let ghost imu = optional_imu(f.imu_values);
    put_u64(&mut bytes, TAG_VIDEO_TIMESTAMP, f.video_timestamp);
    put_u64(&mut bytes, TAG_FRAME_NUMBER, f.frame_number);
    put_u64(&mut bytes, TAG_INFERENCE_STEP, f.inference_step);
    proof {
        lemma_fields_bytes_push(none, f1);
        lemma_fields_bytes_push(none + seq![f1], f2);
        lemma_fields_bytes_push(none + seq![f1] + seq![f2], f3);
        assert(counters =~= none + seq![f1] + seq![f2] + seq![f3]);
        assert(bytes@ =~= fields_bytes(counters));
        assert(state_list_fields(states.take(0)) =~= none);
        assert(counters + none =~= counters);
    }
    let mut i: usize = 0;
    while i < f.actuator_states.len()
        invariant
            i <= f.actuator_states@.len(),
            states == f.actuator_states@,
            counters == frame_counter_fields(f@),
            bytes@ == fields_bytes(counters + state_list_fields(states.take(i as int))),
        decreases f.actuator_states@.len() - i,
    {
        let ghost done = states.take(i as int);
        let ghost field = Field { tag: TAG_ACTUATOR_STATE, payload: state_bytes(states[i as int]) };
        let payload = encode_state(&f.actuator_states[i]);
        proof {
            lemma_state_roundtrip(states[i as int]);
        }
        let fits = put_field(&mut bytes, TAG_ACTUATOR_STATE, payload.as_slice());
        assert(fits);
        i = i + 1;
        proof {
            let more = states.take(i as int);
            assert(more =~= done.push(states[i - 1]));
            assert(state_list_fields(more) =~= state_list_fields(done) + seq![field]);
            assert(counters + state_list_fields(more) =~= (counters + state_list_fields(done))
                + seq![field]);
            lemma_fields_bytes_push(counters + state_list_fields(done), field);
        }
    }
    proof {
        assert(states.take(i as int) =~= states);
    }
    let ghost so_far = counters + state_list_fields(states);
    match &f.actuator_commands {
        Some(c) => {
            let payload = encode_command(c);
            proof {
                lemma_command_roundtrip(*c);
                lemma_fields_bytes_single(command[0]);
                assert(command =~= seq![command[0]]);
            }
            let fits = put_field(&mut bytes, TAG_ACTUATOR_COMMANDS, payload.as_slice());
            assert(fits);
        },
        None => {
            proof {
                assert(bytes@ + fields_bytes(none) =~= bytes@);
            }
        },
    }
    proof {
        lemma_fields_bytes_concat(so_far, command);
        assert(bytes@ == fields_bytes(so_far + command));
    }
    match &f.imu_values {
        Some(v) => {
            let payload = encode_imu(v);
            proof {
                lemma_imu_roundtrip(*v);
                lemma_fields_bytes_single(imu[0]);
                assert(imu =~= seq![imu[0]]);
            }
            let fits = put_field(&mut bytes, TAG_IMU_VALUES, payload.as_slice());
            assert(fits);
        },
        None => {
            proof {
                assert(bytes@ + fields_bytes(none) =~= bytes@);
            }
        },
    }
    proof {
        lemma_fields_bytes_concat(so_far + command, imu);
    }
    bytes
}

/// Takes one field into a frame.
fn take_frame_field(f: KRecFrame, field: &RawField) -> (r: Result<KRecFrame, DecodeError>)
    ensures
        match r {
            Ok(next) => frame_step(f@, field@) == Ok::<KRecFrameView, DecodeError>(next@),
            Err(e) => frame_step(f@, field@) == Err::<KRecFrameView, DecodeError>(e),
        },
{
    if field.tag == TAG_VIDEO_TIMESTAMP {
        match read_u64(field.payload) {
            Ok(video_timestamp) => Ok(KRecFrame { video_timestamp, ..f }),
            Err(e) => Err(e),
        }
    } else if field.tag == TAG_FRAME_NUMBER {
        match read_u64(field.payload) {
            Ok(frame_number) => Ok(KRecFrame { frame_number, ..f }),
            Err(e) => Err(e),
        }
    } else if field.tag == TAG_INFERENCE_STEP {
        match read_u64(field.payload) {
            Ok(inference_step) => Ok(KRecFrame { inference_step, ..f }),
            Err(e) => Err(e),
        }
    } else if field.tag == TAG_ACTUATOR_STATE {
        match decode_state(field.payload) {
            Ok(state) => {
                let mut next = f;
                next.add_actuator_state(state);
                Ok(next)
            },
            Err(e) => Err(e),
        }
    } else if field.tag == TAG_ACTUATOR_COMMANDS {
        match decode_command(field.payload) {
            Ok(command) => Ok(KRecFrame { actuator_commands: Some(command), ..f }),
            Err(e) => Err(e),
        }
    } else if field.tag == TAG_IMU_VALUES {
        match decode_imu(field.payload) {
            Ok(imu) => Ok(KRecFrame { imu_values: Some(imu), ..f }),
            Err(e) => Err(e),
        }
    } else {
        Ok(f)
    }
}

/// Reads a frame.
pub fn decode_frame(bytes: &[u8]) -> (r: Result<KRecFrame, DecodeError>)
    ensures
        match r {
            Ok(f) => frame_from_bytes(bytes@) == Ok::<KRecFrameView, DecodeError>(f@),
            Err(e) => frame_from_bytes(bytes@) == Err::<KRecFrameView, DecodeError>(e),
        },
{
    let fields = match split_fields(bytes) {
        Some(fields) => fields,
        None => return Err(DecodeError::Malformed),
    };
    let ghost all = raw_views(fields@);
    let mut f = KRecFrame::default();
    let mut i: usize = 0;
    proof {
        assert(all.skip(0) =~= all);
    }
    while i < fields.len()
        invariant
            i <= fields@.len(),
            all == raw_views(fields@),
            parse_fields(bytes@) == Some(all),
            absorb(frame_stepper(), KRecFrameView::empty(), all) == absorb(
                frame_stepper(),
                f@,
                all.skip(i as int),
            ),
        decreases fields@.len() - i,
    {
        proof {
            assert(all.skip(i as int)[0] == fields@[i as int]@);
            assert(all.skip(i as int).skip(1) =~= all.skip(i + 1));
            lemma_absorb_next(frame_stepper(), f@, all.skip(i as int));
        }
        match take_frame_field(f, &fields[i]) {
            Ok(next) => {
                f = next;
            },
            Err(e) => {
                return Err(e);
            },
        }
        i = i + 1;
    }
    Ok(f)
}

} // verus!
