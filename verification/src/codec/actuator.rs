//! The binary form of actuator states, commands and configs.

use crate::error::{DecodeError, EncodeError};
use crate::payload::{
    f32_field, flag_field, lemma_flag_field, lemma_optional_f32, lemma_optional_f64,
    lemma_text_field, lemma_u32_field, optional_f32, optional_f64, optional_text, payload_f32,
    payload_f64, payload_flag, payload_text, payload_u32, put_f32, put_flag, put_optional_f32,
    put_optional_f64, put_text, put_u32, read_f32, read_f64, read_flag, read_text, read_u32,
    text_field, u32_field,
};
use crate::record::{
    absorb, lemma_absorb_append, lemma_absorb_next, lemma_absorb_one, lemma_absorb_optional,
    read_record, Step,
};
use crate::schema::{ActuatorCommand, ActuatorConfig, ActuatorConfigView, ActuatorState};
use crate::wire::{
    fields_bytes, fields_fit, lemma_field_bytes_len, lemma_fields_bytes_concat,
    lemma_fields_bytes_push, lemma_fields_bytes_single, lemma_fields_fit_concat,
    lemma_parse_fields_roundtrip, parse_fields, raw_views, split_fields, Field, RawField,
    MAX_PAYLOAD,
};
use vstd::prelude::*;
use vstd::utf8::encode_utf8;

verus! {

/// The tag of the actuator's number, in a state, a command and a config.
pub const TAG_ACTUATOR_ID: u8 = 1;

/// The tag of the online flag of a state.
pub const TAG_ONLINE: u8 = 2;

/// The tag of the position of a state.
pub const TAG_STATE_POSITION: u8 = 3;

/// The tag of the velocity of a state.
pub const TAG_STATE_VELOCITY: u8 = 4;

/// The tag of the torque of a state.
pub const TAG_TORQUE: u8 = 5;

/// The tag of the temperature of a state.
pub const TAG_TEMPERATURE: u8 = 6;

/// The tag of the voltage of a state.
pub const TAG_VOLTAGE: u8 = 7;

/// The tag of the current of a state.
pub const TAG_CURRENT: u8 = 8;

/// The tag of the position of a command.
pub const TAG_COMMAND_POSITION: u8 = 2;

/// The tag of the velocity of a command.
pub const TAG_COMMAND_VELOCITY: u8 = 3;

/// The tag of the effort of a command.
pub const TAG_EFFORT: u8 = 4;

/// The tag of the proportional gain of a config.
pub const TAG_KP: u8 = 2;

/// The tag of the derivative gain of a config.
pub const TAG_KD: u8 = 3;

/// The tag of the integral gain of a config.
pub const TAG_KI: u8 = 4;

/// The tag of the torque limit of a config.
pub const TAG_MAX_TORQUE: u8 = 5;

/// The tag of the name of a config.
pub const TAG_NAME: u8 = 6;

/// The fields of a state: the actuator's number and the online flag, then
/// those of the six measurements that are present.
pub open spec fn state_fields(s: ActuatorState) -> Seq<Field> {
    seq![u32_field(TAG_ACTUATOR_ID, s.actuator_id), flag_field(TAG_ONLINE, s.online)]
        + optional_f64(TAG_STATE_POSITION, s.position) + optional_f64(
        TAG_STATE_VELOCITY,
        s.velocity,
    ) + optional_f64(TAG_TORQUE, s.torque) + optional_f64(TAG_TEMPERATURE, s.temperature)
        + optional_f32(TAG_VOLTAGE, s.voltage) + optional_f32(TAG_CURRENT, s.current)
}

/// What one field does to a state.
pub open spec fn state_step(s: ActuatorState, field: Field) -> Result<ActuatorState, DecodeError> {
    if field.tag == TAG_ACTUATOR_ID {
        match payload_u32(field.payload) {
            Ok(actuator_id) => Ok(ActuatorState { actuator_id, ..s }),
            Err(e) => Err(e),
        }
    } else if field.tag == TAG_ONLINE {
        match payload_flag(field.payload) {
            Ok(online) => Ok(ActuatorState { online, ..s }),
            Err(e) => Err(e),
        }
    } else if field.tag == TAG_STATE_POSITION {
        match payload_f64(field.payload) {
            Ok(v) => Ok(ActuatorState { position: Some(v), ..s }),
            Err(e) => Err(e),
        }
    } else if field.tag == TAG_STATE_VELOCITY {
        match payload_f64(field.payload) {
            Ok(v) => Ok(ActuatorState { velocity: Some(v), ..s }),
            Err(e) => Err(e),
        }
    } else if field.tag == TAG_TORQUE {
        match payload_f64(field.payload) {
            Ok(v) => Ok(ActuatorState { torque: Some(v), ..s }),
            Err(e) => Err(e),
        }
    } else if field.tag == TAG_TEMPERATURE {
        match payload_f64(field.payload) {
            Ok(v) => Ok(ActuatorState { temperature: Some(v), ..s }),
            Err(e) => Err(e),
        }
    } else if field.tag == TAG_VOLTAGE {
        match payload_f32(field.payload) {
            Ok(v) => Ok(ActuatorState { voltage: Some(v), ..s }),
            Err(e) => Err(e),
        }
    } else if field.tag == TAG_CURRENT {
        match payload_f32(field.payload) {
            Ok(v) => Ok(ActuatorState { current: Some(v), ..s }),
            Err(e) => Err(e),
        }
    } else {
        Ok(s)
    }
}

/// `state_step` as a value.
pub open spec fn state_stepper() -> Step<ActuatorState> {
    |s: ActuatorState, field: Field| state_step(s, field)
}

/// The bytes of a state.
pub open spec fn state_bytes(s: ActuatorState) -> Seq<u8> {
    fields_bytes(state_fields(s))
}

/// The state that bytes hold: the empty state, changed by each field in turn.
pub open spec fn state_from_bytes(bytes: Seq<u8>) -> Result<ActuatorState, DecodeError> {
    read_record(state_stepper(), ActuatorState::empty(), bytes)
}

/// A state is read back from its bytes, of which there are at most 69.
pub proof fn lemma_state_roundtrip(s: ActuatorState)
    ensures
        state_from_bytes(state_bytes(s)) == Ok::<ActuatorState, DecodeError>(s),
        state_bytes(s).len() <= 69,
{
    let step = state_stepper();
    let f_id = u32_field(TAG_ACTUATOR_ID, s.actuator_id);
    let f_online = flag_field(TAG_ONLINE, s.online);
    let part0 = seq![f_id, f_online];
    let part1 = optional_f64(TAG_STATE_POSITION, s.position);
    let part2 = optional_f64(TAG_STATE_VELOCITY, s.velocity);
    let part3 = optional_f64(TAG_TORQUE, s.torque);
    let part4 = optional_f64(TAG_TEMPERATURE, s.temperature);
    let part5 = optional_f32(TAG_VOLTAGE, s.voltage);
    let part6 = optional_f32(TAG_CURRENT, s.current);
    let e = ActuatorState::empty();
    let s_id = ActuatorState { actuator_id: s.actuator_id, ..e };
    let s0 = ActuatorState { online: s.online, ..s_id };
    let s1 = ActuatorState { position: s.position, ..s0 };
    let s2 = ActuatorState { velocity: s.velocity, ..s1 };
    let s3 = ActuatorState { torque: s.torque, ..s2 };
    let s4 = ActuatorState { temperature: s.temperature, ..s3 };
    let s5 = ActuatorState { voltage: s.voltage, ..s4 };
    lemma_u32_field(TAG_ACTUATOR_ID, s.actuator_id);
    lemma_flag_field(TAG_ONLINE, s.online);
    lemma_absorb_one(step, e, f_id);
    lemma_absorb_one(step, s_id, f_online);
    lemma_absorb_append(step, e, seq![f_id], seq![f_online], s_id, s0);
    assert(part0 =~= seq![f_id] + seq![f_online]);
    lemma_fields_bytes_push(seq![f_id], f_online);
    lemma_fields_bytes_single(f_id);
    lemma_field_bytes_len(f_id);
    assert(fields_fit(part0));
    assert(fields_bytes(part0).len() == 11);
    lemma_optional_f64(TAG_STATE_POSITION, s.position);
    lemma_optional_f64(TAG_STATE_VELOCITY, s.velocity);
    lemma_optional_f64(TAG_TORQUE, s.torque);
    lemma_optional_f64(TAG_TEMPERATURE, s.temperature);
    lemma_optional_f32(TAG_VOLTAGE, s.voltage);
    lemma_optional_f32(TAG_CURRENT, s.current);
    lemma_absorb_optional(step, s0, part1, s1);
    lemma_absorb_optional(step, s1, part2, s2);
    lemma_absorb_optional(step, s2, part3, s3);
    lemma_absorb_optional(step, s3, part4, s4);
    lemma_absorb_optional(step, s4, part5, s5);
    lemma_absorb_optional(step, s5, part6, s);
    lemma_absorb_append(step, e, part0, part1, s0, s1);
    lemma_absorb_append(step, e, part0 + part1, part2, s1, s2);
    lemma_absorb_append(step, e, part0 + part1 + part2, part3, s2, s3);
    lemma_absorb_append(step, e, part0 + part1 + part2 + part3, part4, s3, s4);
    lemma_absorb_append(step, e, part0 + part1 + part2 + part3 + part4, part5, s4, s5);
    lemma_absorb_append(step, e, part0 + part1 + part2 + part3 + part4 + part5, part6, s5, s);
    lemma_fields_fit_concat(part0, part1);
    lemma_fields_fit_concat(part0 + part1, part2);
    lemma_fields_fit_concat(part0 + part1 + part2, part3);
    lemma_fields_fit_concat(part0 + part1 + part2 + part3, part4);
    lemma_fields_fit_concat(part0 + part1 + part2 + part3 + part4, part5);
    lemma_fields_fit_concat(part0 + part1 + part2 + part3 + part4 + part5, part6);
    lemma_fields_bytes_concat(part0, part1);
    lemma_fields_bytes_concat(part0 + part1, part2);
    lemma_fields_bytes_concat(part0 + part1 + part2, part3);
    lemma_fields_bytes_concat(part0 + part1 + part2 + part3, part4);
    lemma_fields_bytes_concat(part0 + part1 + part2 + part3 + part4, part5);
    lemma_fields_bytes_concat(part0 + part1 + part2 + part3 + part4 + part5, part6);
    lemma_parse_fields_roundtrip(state_fields(s));
}

/// Writes a state.
pub fn encode_state(s: &ActuatorState) -> (bytes: Vec<u8>)
    ensures
        bytes@ == state_bytes(*s),
{
    let mut bytes: Vec<u8> = Vec::new();
    let ghost f_id = u32_field(TAG_ACTUATOR_ID, s.actuator_id);
    let ghost f_online = flag_field(TAG_ONLINE, s.online);
    let ghost part0 = seq![f_id, f_online];
    let ghost part1 = optional_f64(TAG_STATE_POSITION, s.position);
    let ghost part2 = optional_f64(TAG_STATE_VELOCITY, s.velocity);
    let ghost part3 = optional_f64(TAG_TORQUE, s.torque);
    let ghost part4 = optional_f64(TAG_TEMPERATURE, s.temperature);
    let ghost part5 = optional_f32(TAG_VOLTAGE, s.voltage);
    let ghost part6 = optional_f32(TAG_CURRENT, s.current);
    put_u32(&mut bytes, TAG_ACTUATOR_ID, s.actuator_id);
    put_flag(&mut bytes, TAG_ONLINE, s.online);
    proof {
        assert(part0 =~= seq![f_id] + seq![f_online]);
        lemma_fields_bytes_push(seq![f_id], f_online);
        lemma_fields_bytes_single(f_id);
        assert(bytes@ =~= fields_bytes(part0));
    }
    put_optional_f64(&mut bytes, TAG_STATE_POSITION, s.position);
    put_optional_f64(&mut bytes, TAG_STATE_VELOCITY, s.velocity);
    put_optional_f64(&mut bytes, TAG_TORQUE, s.torque);
    put_optional_f64(&mut bytes, TAG_TEMPERATURE, s.temperature);
    put_optional_f32(&mut bytes, TAG_VOLTAGE, s.voltage);
    put_optional_f32(&mut bytes, TAG_CURRENT, s.current);
    proof {
        lemma_fields_bytes_concat(part0, part1);
        lemma_fields_bytes_concat(part0 + part1, part2);
        lemma_fields_bytes_concat(part0 + part1 + part2, part3);
        lemma_fields_bytes_concat(part0 + part1 + part2 + part3, part4);
        lemma_fields_bytes_concat(part0 + part1 + part2 + part3 + part4, part5);
        lemma_fields_bytes_concat(part0 + part1 + part2 + part3 + part4 + part5, part6);
    }
    bytes
}

/// Takes one field into a state.
fn take_state_field(s: ActuatorState, field: &RawField) -> (r: Result<ActuatorState, DecodeError>)
    ensures
        r == state_step(s, field@),
{
    if field.tag == TAG_ACTUATOR_ID {
        match read_u32(field.payload) {
            Ok(actuator_id) => Ok(ActuatorState { actuator_id, ..s }),
            Err(e) => Err(e),
        }
    } else if field.tag == TAG_ONLINE {
        match read_flag(field.payload) {
            Ok(online) => Ok(ActuatorState { online, ..s }),
            Err(e) => Err(e),
        }
    } else if field.tag == TAG_STATE_POSITION {
        match read_f64(field.payload) {
            Ok(v) => Ok(ActuatorState { position: Some(v), ..s }),
            Err(e) => Err(e),
        }
    } else if field.tag == TAG_STATE_VELOCITY {
        match read_f64(field.payload) {
            Ok(v) => Ok(ActuatorState { velocity: Some(v), ..s }),
            Err(e) => Err(e),
        }
    } else if field.tag == TAG_TORQUE {
        match read_f64(field.payload) {
            Ok(v) => Ok(ActuatorState { torque: Some(v), ..s }),
            Err(e) => Err(e),
        }
    } else if field.tag == TAG_TEMPERATURE {
        match read_f64(field.payload) {
            Ok(v) => Ok(ActuatorState { temperature: Some(v), ..s }),
            Err(e) => Err(e),
        }
    } else if field.tag == TAG_VOLTAGE {
        match read_f32(field.payload) {
            Ok(v) => Ok(ActuatorState { voltage: Some(v), ..s }),
            Err(e) => Err(e),
        }
    } else if field.tag == TAG_CURRENT {
        match read_f32(field.payload) {
            Ok(v) => Ok(ActuatorState { current: Some(v), ..s }),
            Err(e) => Err(e),
        }
    } else {
        Ok(s)
    }
}

/// Reads a state.
pub fn decode_state(bytes: &[u8]) -> (r: Result<ActuatorState, DecodeError>)
    ensures
        r == state_from_bytes(bytes@),
{
    let fields = match split_fields(bytes) {
        Some(fields) => fields,
        None => return Err(DecodeError::Malformed),
    };
    let ghost all = raw_views(fields@);
    let mut s = ActuatorState::default();
    let mut i: usize = 0;
    proof {
        assert(all.skip(0) =~= all);
    }
    while i < fields.len()
        invariant
            i <= fields@.len(),
            all == raw_views(fields@),
            parse_fields(bytes@) == Some(all),
            absorb(state_stepper(), ActuatorState::empty(), all) == absorb(
                state_stepper(),
                s,
                all.skip(i as int),
            ),
        decreases fields@.len() - i,
    {
        proof {
            assert(all.skip(i as int)[0] == fields@[i as int]@);
            assert(all.skip(i as int).skip(1) =~= all.skip(i + 1));
            lemma_absorb_next(state_stepper(), s, all.skip(i as int));
        }
        match take_state_field(s, &fields[i]) {
            Ok(next) => {
                s = next;
            },
            Err(e) => {
                return Err(e);
            },
        }
        i = i + 1;
    }
    Ok(s)
}

/// The fields of a command: the actuator's number, then position, velocity
/// and effort.
pub open spec fn command_fields(c: ActuatorCommand) -> Seq<Field> {
    seq![
        u32_field(TAG_ACTUATOR_ID, c.actuator_id),
        f32_field(TAG_COMMAND_POSITION, c.position),
        f32_field(TAG_COMMAND_VELOCITY, c.velocity),
        f32_field(TAG_EFFORT, c.effort),
    ]
}

/// What one field does to a command.
pub open spec fn command_step(c: ActuatorCommand, field: Field) -> Result<
    ActuatorCommand,
    DecodeError,
> {
    if field.tag == TAG_ACTUATOR_ID {
        match payload_u32(field.payload) {
            Ok(actuator_id) => Ok(ActuatorCommand { actuator_id, ..c }),
            Err(e) => Err(e),
        }
    } else if field.tag == TAG_COMMAND_POSITION {
        match payload_f32(field.payload) {
            Ok(position) => Ok(ActuatorCommand { position, ..c }),
            Err(e) => Err(e),
        }
    } else if field.tag == TAG_COMMAND_VELOCITY {
        match payload_f32(field.payload) {
            Ok(velocity) => Ok(ActuatorCommand { velocity, ..c }),
            Err(e) => Err(e),
        }
    } else if field.tag == TAG_EFFORT {
        match payload_f32(field.payload) {
            Ok(effort) => Ok(ActuatorCommand { effort, ..c }),
            Err(e) => Err(e),
        }
    } else {
        Ok(c)
    }
}

/// `command_step` as a value.
pub open spec fn command_stepper() -> Step<ActuatorCommand> {
    |c: ActuatorCommand, field: Field| command_step(c, field)
}

/// The bytes of a command.
pub open spec fn command_bytes(c: ActuatorCommand) -> Seq<u8> {
    fields_bytes(command_fields(c))
}

/// The command that bytes hold: the zero command, changed by each field in
/// turn.
pub open spec fn command_from_bytes(bytes: Seq<u8>) -> Result<ActuatorCommand, DecodeError> {
    read_record(command_stepper(), ActuatorCommand::zero(), bytes)
}

/// A command is read back from its bytes, of which there are 28.
pub proof fn lemma_command_roundtrip(c: ActuatorCommand)
    ensures
        command_from_bytes(command_bytes(c)) == Ok::<ActuatorCommand, DecodeError>(c),
        command_bytes(c).len() == 28,
{
    let step = command_stepper();
    let f0 = u32_field(TAG_ACTUATOR_ID, c.actuator_id);
    let f1 = f32_field(TAG_COMMAND_POSITION, c.position);
    let f2 = f32_field(TAG_COMMAND_VELOCITY, c.velocity);
    let f3 = f32_field(TAG_EFFORT, c.effort);
    let none = Seq::<Field>::empty();
    let s0 = ActuatorCommand::zero();
    let s1 = ActuatorCommand { actuator_id: c.actuator_id, ..s0 };
    let s2 = ActuatorCommand { position: c.position, ..s1 };
    let s3 = ActuatorCommand { velocity: c.velocity, ..s2 };
    lemma_u32_field(TAG_ACTUATOR_ID, c.actuator_id);
    lemma_u32_field(TAG_COMMAND_POSITION, c.position.bits);
    lemma_u32_field(TAG_COMMAND_VELOCITY, c.velocity.bits);
    lemma_u32_field(TAG_EFFORT, c.effort.bits);
    lemma_absorb_one(step, s0, f0);
    lemma_absorb_one(step, s1, f1);
    lemma_absorb_one(step, s2, f2);
    lemma_absorb_one(step, s3, f3);
    lemma_absorb_append(step, s0, none, seq![f0], s0, s1);
    lemma_absorb_append(step, s0, none + seq![f0], seq![f1], s1, s2);
    lemma_absorb_append(step, s0, none + seq![f0] + seq![f1], seq![f2], s2, s3);
    lemma_absorb_append(step, s0, none + seq![f0] + seq![f1] + seq![f2], seq![f3], s3, c);
    lemma_fields_bytes_push(none, f0);
    lemma_fields_bytes_push(none + seq![f0], f1);
    lemma_fields_bytes_push(none + seq![f0] + seq![f1], f2);
    lemma_fields_bytes_push(none + seq![f0] + seq![f1] + seq![f2], f3);
    assert(command_fields(c) =~= none + seq![f0] + seq![f1] + seq![f2] + seq![f3]);
    assert(fields_fit(command_fields(c)));
    lemma_parse_fields_roundtrip(command_fields(c));
}

/// Writes a command.
pub fn encode_command(c: &ActuatorCommand) -> (bytes: Vec<u8>)
    ensures
        bytes@ == command_bytes(*c),
{
    let mut bytes: Vec<u8> = Vec::new();
    let ghost f0 = u32_field(TAG_ACTUATOR_ID, c.actuator_id);
    let ghost f1 = f32_field(TAG_COMMAND_POSITION, c.position);
    let ghost f2 = f32_field(TAG_COMMAND_VELOCITY, c.velocity);
    let ghost f3 = f32_field(TAG_EFFORT, c.effort);
    let ghost none = Seq::<Field>::empty();
    put_u32(&mut bytes, TAG_ACTUATOR_ID, c.actuator_id);
    put_f32(&mut bytes, TAG_COMMAND_POSITION, c.position);
    put_f32(&mut bytes, TAG_COMMAND_VELOCITY, c.velocity);
    put_f32(&mut bytes, TAG_EFFORT, c.effort);
    proof {
        lemma_fields_bytes_push(none, f0);
        lemma_fields_bytes_push(none + seq![f0], f1);
        lemma_fields_bytes_push(none + seq![f0] + seq![f1], f2);
        lemma_fields_bytes_push(none + seq![f0] + seq![f1] + seq![f2], f3);
        assert(command_fields(*c) =~= none + seq![f0] + seq![f1] + seq![f2] + seq![f3]);
        assert(bytes@ =~= fields_bytes(none + seq![f0] + seq![f1] + seq![f2] + seq![f3]));
    }
    bytes
}

/// Takes one field into a command.
fn take_command_field(c: ActuatorCommand, field: &RawField) -> (r: Result<
    ActuatorCommand,
    DecodeError,
>)
    ensures
        r == command_step(c, field@),
{
    if field.tag == TAG_ACTUATOR_ID {
        match read_u32(field.payload) {
            Ok(actuator_id) => Ok(ActuatorCommand { actuator_id, ..c }),
            Err(e) => Err(e),
        }
    } else if field.tag == TAG_COMMAND_POSITION {
        match read_f32(field.payload) {
            Ok(position) => Ok(ActuatorCommand { position, ..c }),
            Err(e) => Err(e),
        }
    } else if field.tag == TAG_COMMAND_VELOCITY {
        match read_f32(field.payload) {
            Ok(velocity) => Ok(ActuatorCommand { velocity, ..c }),
            Err(e) => Err(e),
        }
    } else if field.tag == TAG_EFFORT {
        match read_f32(field.payload) {
            Ok(effort) => Ok(ActuatorCommand { effort, ..c }),
            Err(e) => Err(e),
        }
    } else {
        Ok(c)
    }
}

/// Reads a command.
pub fn decode_command(bytes: &[u8]) -> (r: Result<ActuatorCommand, DecodeError>)
    ensures
        r == command_from_bytes(bytes@),
{
    let fields = match split_fields(bytes) {
        Some(fields) => fields,
        None => return Err(DecodeError::Malformed),
    };
    let ghost all = raw_views(fields@);
    let mut c = ActuatorCommand::default();
    let mut i: usize = 0;
    proof {
        assert(all.skip(0) =~= all);
    }
    while i < fields.len()
        invariant
            i <= fields@.len(),
            all == raw_views(fields@),
            parse_fields(bytes@) == Some(all),
            absorb(command_stepper(), ActuatorCommand::zero(), all) == absorb(
                command_stepper(),
                c,
                all.skip(i as int),
            ),
        decreases fields@.len() - i,
    {
        proof {
            assert(all.skip(i as int)[0] == fields@[i as int]@);
            assert(all.skip(i as int).skip(1) =~= all.skip(i + 1));
            lemma_absorb_next(command_stepper(), c, all.skip(i as int));
        }
        match take_command_field(c, &fields[i]) {
            Ok(next) => {
                c = next;
            },
            Err(e) => {
                return Err(e);
            },
        }
        i = i + 1;
    }
    Ok(c)
}

/// The fields of a config: the actuator's number, then those of the four
/// parameters and the name that are present.
pub open spec fn config_fields(c: ActuatorConfigView) -> Seq<Field> {
    seq![u32_field(TAG_ACTUATOR_ID, c.actuator_id)] + optional_f64(TAG_KP, c.kp) + optional_f64(
        TAG_KD,
        c.kd,
    ) + optional_f64(TAG_KI, c.ki) + optional_f64(TAG_MAX_TORQUE, c.max_torque) + optional_text(
        TAG_NAME,
        c.name,
    )
}

/// What one field does to a config.
pub open spec fn config_step(c: ActuatorConfigView, field: Field) -> Result<
    ActuatorConfigView,
    DecodeError,
> {
    if field.tag == TAG_ACTUATOR_ID {
        match payload_u32(field.payload) {
            Ok(actuator_id) => Ok(ActuatorConfigView { actuator_id, ..c }),
            Err(e) => Err(e),
        }
    } else if field.tag == TAG_KP {
        match payload_f64(field.payload) {
            Ok(v) => Ok(ActuatorConfigView { kp: Some(v), ..c }),
            Err(e) => Err(e),
        }
    } else if field.tag == TAG_KD {
        match payload_f64(field.payload) {
            Ok(v) => Ok(ActuatorConfigView { kd: Some(v), ..c }),
            Err(e) => Err(e),
        }
    } else if field.tag == TAG_KI {
        match payload_f64(field.payload) {
            Ok(v) => Ok(ActuatorConfigView { ki: Some(v), ..c }),
            Err(e) => Err(e),
        }
    } else if field.tag == TAG_MAX_TORQUE {
        match payload_f64(field.payload) {
            Ok(v) => Ok(ActuatorConfigView { max_torque: Some(v), ..c }),
            Err(e) => Err(e),
        }
    } else if field.tag == TAG_NAME {
        match payload_text(field.payload) {
            Ok(t) => Ok(ActuatorConfigView { name: Some(t), ..c }),
            Err(e) => Err(e),
        }
    } else {
        Ok(c)
    }
}

/// `config_step` as a value.
pub open spec fn config_stepper() -> Step<ActuatorConfigView> {
    |c: ActuatorConfigView, field: Field| config_step(c, field)
}

/// The bytes of a config.
pub open spec fn config_bytes(c: ActuatorConfigView) -> Seq<u8> {
    fields_bytes(config_fields(c))
}

/// A config that can be written: its bytes fit in one field of the header.
/// By `lemma_config_bytes_len`, a config whose name takes at most 65481 bytes
/// always can.
pub open spec fn config_encodable(c: ActuatorConfigView) -> bool {
    config_bytes(c).len() <= MAX_PAYLOAD
}

/// The config that bytes hold: the empty config, changed by each field in
/// turn.
pub open spec fn config_from_bytes(bytes: Seq<u8>) -> Result<ActuatorConfigView, DecodeError> {
    read_record(config_stepper(), ActuatorConfigView::empty(), bytes)
}

/// The bytes of a config are those of its name, where it has one, and at
/// least 7 and at most 54 more.
pub proof fn lemma_config_bytes_len(c: ActuatorConfigView)
    ensures
        c.name is None ==> 7 <= config_bytes(c).len() <= 51,
        c.name is Some ==> 10 + encode_utf8(c.name->Some_0).len() <= config_bytes(
            c,
        ).len() <= 54 + encode_utf8(c.name->Some_0).len(),
{
    let f_id = u32_field(TAG_ACTUATOR_ID, c.actuator_id);
    let part0 = seq![f_id];
    let part1 = optional_f64(TAG_KP, c.kp);
    let part2 = optional_f64(TAG_KD, c.kd);
    let part3 = optional_f64(TAG_KI, c.ki);
    let part4 = optional_f64(TAG_MAX_TORQUE, c.max_torque);
    let part5 = optional_text(TAG_NAME, c.name);
    lemma_u32_field(TAG_ACTUATOR_ID, c.actuator_id);
    lemma_fields_bytes_single(f_id);
    lemma_field_bytes_len(f_id);
    lemma_optional_f64(TAG_KP, c.kp);
    lemma_optional_f64(TAG_KD, c.kd);
    lemma_optional_f64(TAG_KI, c.ki);
    lemma_optional_f64(TAG_MAX_TORQUE, c.max_torque);
    match c.name {
        Some(t) => {
            lemma_fields_bytes_single(text_field(TAG_NAME, t));
            lemma_field_bytes_len(text_field(TAG_NAME, t));
        },
        None => {},
    }
    lemma_fields_bytes_concat(part0, part1);
    lemma_fields_bytes_concat(part0 + part1, part2);
    lemma_fields_bytes_concat(part0 + part1 + part2, part3);
    lemma_fields_bytes_concat(part0 + part1 + part2 + part3, part4);
    lemma_fields_bytes_concat(part0 + part1 + part2 + part3 + part4, part5);
}

/// A config that can be written is read back from its bytes.
pub proof fn lemma_config_roundtrip(c: ActuatorConfigView)
    requires
        config_encodable(c),
    ensures
        config_from_bytes(config_bytes(c)) == Ok::<ActuatorConfigView, DecodeError>(c),
{
    let step = config_stepper();
    let f_id = u32_field(TAG_ACTUATOR_ID, c.actuator_id);
    let part0 = seq![f_id];
    let part1 = optional_f64(TAG_KP, c.kp);
    let part2 = optional_f64(TAG_KD, c.kd);
    let part3 = optional_f64(TAG_KI, c.ki);
    let part4 = optional_f64(TAG_MAX_TORQUE, c.max_torque);
    let part5 = optional_text(TAG_NAME, c.name);
    let e = ActuatorConfigView::empty();
    let s0 = ActuatorConfigView { actuator_id: c.actuator_id, ..e };
    let s1 = ActuatorConfigView { kp: c.kp, ..s0 };
    let s2 = ActuatorConfigView { kd: c.kd, ..s1 };
    let s3 = ActuatorConfigView { ki: c.ki, ..s2 };
    let s4 = ActuatorConfigView { max_torque: c.max_torque, ..s3 };
    lemma_config_bytes_len(c);
    lemma_u32_field(TAG_ACTUATOR_ID, c.actuator_id);
    lemma_absorb_one(step, e, f_id);
    assert(fields_fit(part0));
    lemma_optional_f64(TAG_KP, c.kp);
    lemma_optional_f64(TAG_KD, c.kd);
    lemma_optional_f64(TAG_KI, c.ki);
    lemma_optional_f64(TAG_MAX_TORQUE, c.max_torque);
    match c.name {
        Some(t) => {
            lemma_text_field(TAG_NAME, t);
        },
        None => {},
    }
    assert(fields_fit(part5));
    lemma_absorb_optional(step, s0, part1, s1);
    lemma_absorb_optional(step, s1, part2, s2);
    lemma_absorb_optional(step, s2, part3, s3);
    lemma_absorb_optional(step, s3, part4, s4);
    lemma_absorb_optional(step, s4, part5, c);
    lemma_absorb_append(step, e, part0, part1, s0, s1);
    lemma_absorb_append(step, e, part0 + part1, part2, s1, s2);
    lemma_absorb_append(step, e, part0 + part1 + part2, part3, s2, s3);
    lemma_absorb_append(step, e, part0 + part1 + part2 + part3, part4, s3, s4);
    lemma_absorb_append(step, e, part0 + part1 + part2 + part3 + part4, part5, s4, c);
    lemma_fields_fit_concat(part0, part1);
    lemma_fields_fit_concat(part0 + part1, part2);
    lemma_fields_fit_concat(part0 + part1 + part2, part3);
    lemma_fields_fit_concat(part0 + part1 + part2 + part3, part4);
    lemma_fields_fit_concat(part0 + part1 + part2 + part3 + part4, part5);
    lemma_parse_fields_roundtrip(config_fields(c));
}

/// Writes a config, or refuses it where it is too large to be written.
pub fn encode_config(c: &ActuatorConfig) -> (r: Result<Vec<u8>, EncodeError>)
    ensures
        r is Ok <==> config_encodable(c@),
        match r {
            Ok(bytes) => config_encodable(c@) && bytes@ == config_bytes(c@),
            Err(e) => !config_encodable(c@) && e == EncodeError::ActuatorConfigTooLarge,
        },
{
    let mut bytes: Vec<u8> = Vec::new();
    let ghost f_id = u32_field(TAG_ACTUATOR_ID, c.actuator_id);
    let ghost part0 = seq![f_id];
    let ghost part1 = optional_f64(TAG_KP, c.kp);
    let ghost part2 = optional_f64(TAG_KD, c.kd);
    let ghost part3 = optional_f64(TAG_KI, c.ki);
    let ghost part4 = optional_f64(TAG_MAX_TORQUE, c.max_torque);
    let ghost part5 = optional_text(TAG_NAME, c@.name);
    proof {
        lemma_config_bytes_len(c@);
    }
    put_u32(&mut bytes, TAG_ACTUATOR_ID, c.actuator_id);
    proof {
        lemma_fields_bytes_single(f_id);
    }
    put_optional_f64(&mut bytes, TAG_KP, c.kp);
    put_optional_f64(&mut bytes, TAG_KD, c.kd);
    put_optional_f64(&mut bytes, TAG_KI, c.ki);
    put_optional_f64(&mut bytes, TAG_MAX_TORQUE, c.max_torque);
    match &c.name {
        Some(name) => {
            let fits = put_text(&mut bytes, TAG_NAME, name.as_str());
            if !fits {
                return Err(EncodeError::ActuatorConfigTooLarge);
            }
            proof {
                lemma_fields_bytes_single(text_field(TAG_NAME, name@));
            }
        },
        None => {
            proof {
                assert(bytes@ + fields_bytes(Seq::<Field>::empty()) =~= bytes@);
            }
        },
    }
    proof {
        lemma_fields_bytes_concat(part0, part1);
        lemma_fields_bytes_concat(part0 + part1, part2);
        lemma_fields_bytes_concat(part0 + part1 + part2, part3);
        lemma_fields_bytes_concat(part0 + part1 + part2 + part3, part4);
        lemma_fields_bytes_concat(part0 + part1 + part2 + part3 + part4, part5);
        assert(bytes@ =~= config_bytes(c@));
    }
    if bytes.len() > MAX_PAYLOAD {
        return Err(EncodeError::ActuatorConfigTooLarge);
    }
    Ok(bytes)
}

/// Takes one field into a config.
fn take_config_field(c: ActuatorConfig, field: &RawField) -> (r: Result<
    ActuatorConfig,
    DecodeError,
>)
    ensures
        match r {
            Ok(next) => config_step(c@, field@) == Ok::<ActuatorConfigView, DecodeError>(next@),
            Err(e) => config_step(c@, field@) == Err::<ActuatorConfigView, DecodeError>(e),
        },
{
    if field.tag == TAG_ACTUATOR_ID {
        match read_u32(field.payload) {
            Ok(actuator_id) => Ok(ActuatorConfig { actuator_id, ..c }),
            Err(e) => Err(e),
        }
    } else if field.tag == TAG_KP {
        match read_f64(field.payload) {
            Ok(v) => Ok(ActuatorConfig { kp: Some(v), ..c }),
            Err(e) => Err(e),
        }
    } else if field.tag == TAG_KD {
        match read_f64(field.payload) {
            Ok(v) => Ok(ActuatorConfig { kd: Some(v), ..c }),
            Err(e) => Err(e),
        }
    } else if field.tag == TAG_KI {
        match read_f64(field.payload) {
            Ok(v) => Ok(ActuatorConfig { ki: Some(v), ..c }),
            Err(e) => Err(e),
        }
    } else if field.tag == TAG_MAX_TORQUE {
        match read_f64(field.payload) {
            Ok(v) => Ok(ActuatorConfig { max_torque: Some(v), ..c }),
            Err(e) => Err(e),
        }
    } else if field.tag == TAG_NAME {
        match read_text(field.payload) {
            Ok(t) => Ok(ActuatorConfig { name: Some(t), ..c }),
            Err(e) => Err(e),
        }
    } else {
        Ok(c)
    }
}

/// Reads a config.
pub fn decode_config(bytes: &[u8]) -> (r: Result<ActuatorConfig, DecodeError>)
    ensures
        match r {
            Ok(c) => config_from_bytes(bytes@) == Ok::<ActuatorConfigView, DecodeError>(c@),
            Err(e) => config_from_bytes(bytes@) == Err::<ActuatorConfigView, DecodeError>(e),
        },
{
    let fields = match split_fields(bytes) {
        Some(fields) => fields,
        None => return Err(DecodeError::Malformed),
    };
    let ghost all = raw_views(fields@);
    let mut c = ActuatorConfig::default();
    let mut i: usize = 0;
    proof {
        assert(all.skip(0) =~= all);
    }
    while i < fields.len()
        invariant
            i <= fields@.len(),
            all == raw_views(fields@),
            parse_fields(bytes@) == Some(all),
            absorb(config_stepper(), ActuatorConfigView::empty(), all) == absorb(
                config_stepper(),
                c@,
                all.skip(i as int),
            ),
        decreases fields@.len() - i,
    {
        proof {
            assert(all.skip(i as int)[0] == fields@[i as int]@);
            assert(all.skip(i as int).skip(1) =~= all.skip(i + 1));
            lemma_absorb_next(config_stepper(), c@, all.skip(i as int));
        }
        match take_config_field(c, &fields[i]) {
            Ok(next) => {
                c = next;
            },
            Err(e) => {
                return Err(e);
            },
        }
        i = i + 1;
    }
    Ok(c)
}

} // verus!
