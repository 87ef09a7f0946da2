//! The binary form of the header.

use crate::codec::actuator::{
    config_bytes, config_encodable, config_from_bytes, decode_config, encode_config,
    lemma_config_roundtrip,
};
use crate::error::{DecodeError, EncodeError};
use crate::payload::{
    lemma_text_field, lemma_u64_field, payload_text, payload_u64, put_text, put_u64, read_text,
    read_u64, text_field, text_fits, u64_field,
};
use crate::record::{
    absorb, lemma_absorb_append, lemma_absorb_next, lemma_absorb_one, read_record, Step,
};
use crate::schema::{ActuatorConfigView, KRecHeader, KRecHeaderView};
use crate::wire::{
    fields_bytes, fields_fit, lemma_fields_bytes_push, lemma_fields_fit_concat,
    lemma_parse_fields_roundtrip, parse_fields, put_field, raw_views, split_fields, Field,
    RawField,
};
use vstd::prelude::*;

verus! {

/// The tag of the recording's identifier.
pub const TAG_UUID: u8 = 1;

/// The tag of the task label.
pub const TAG_TASK: u8 = 2;

/// The tag of the robot platform.
pub const TAG_ROBOT_PLATFORM: u8 = 3;

/// The tag of the robot's serial number.
pub const TAG_ROBOT_SERIAL: u8 = 4;

/// The tag of the time at which the recording starts.
pub const TAG_START_TIMESTAMP: u8 = 5;

/// The tag of the time at which the recording ends.
pub const TAG_END_TIMESTAMP: u8 = 6;

/// The tag of an actuator config; the header has one such field for each.
pub const TAG_ACTUATOR_CONFIG: u8 = 7;

/// The fields of the members that a header has once: the four texts and the
/// two timestamps.
pub open spec fn header_scalar_fields(h: KRecHeaderView) -> Seq<Field> {
    seq![
        text_field(TAG_UUID, h.uuid),
        text_field(TAG_TASK, h.task),
        text_field(TAG_ROBOT_PLATFORM, h.robot_platform),
        text_field(TAG_ROBOT_SERIAL, h.robot_serial),
        u64_field(TAG_START_TIMESTAMP, h.start_timestamp),
        u64_field(TAG_END_TIMESTAMP, h.end_timestamp),
    ]
}

/// The fields of a list of configs: one for each, in the order of the list.
pub open spec fn config_list_fields(configs: Seq<ActuatorConfigView>) -> Seq<Field> {
    Seq::new(
        configs.len(),
        |i: int| Field { tag: TAG_ACTUATOR_CONFIG, payload: config_bytes(configs[i]) },
    )
}

/// The fields of a header: the texts and the timestamps, then the configs.
pub open spec fn header_fields(h: KRecHeaderView) -> Seq<Field> {
    header_scalar_fields(h) + config_list_fields(h.actuator_configs)
}

/// What one field does to a header. A config field adds its config after
/// those already there.
pub open spec fn header_step(h: KRecHeaderView, field: Field) -> Result<KRecHeaderView, DecodeError> {
    if field.tag == TAG_UUID {
        match payload_text(field.payload) {
            Ok(uuid) => Ok(KRecHeaderView { uuid, ..h }),
            Err(e) => Err(e),
        }
    } else if field.tag == TAG_TASK {
        match payload_text(field.payload) {
            Ok(task) => Ok(KRecHeaderView { task, ..h }),
            Err(e) => Err(e),
        }
    } else if field.tag == TAG_ROBOT_PLATFORM {
        match payload_text(field.payload) {
            Ok(robot_platform) => Ok(KRecHeaderView { robot_platform, ..h }),
            Err(e) => Err(e),
        }
    } else if field.tag == TAG_ROBOT_SERIAL {
        match payload_text(field.payload) {
            Ok(robot_serial) => Ok(KRecHeaderView { robot_serial, ..h }),
            Err(e) => Err(e),
        }
    } else if field.tag == TAG_START_TIMESTAMP {
        match payload_u64(field.payload) {
            Ok(start_timestamp) => Ok(KRecHeaderView { start_timestamp, ..h }),
            Err(e) => Err(e),
        }
    } else if field.tag == TAG_END_TIMESTAMP {
        match payload_u64(field.payload) {
            Ok(end_timestamp) => Ok(KRecHeaderView { end_timestamp, ..h }),
            Err(e) => Err(e),
        }
    } else if field.tag == TAG_ACTUATOR_CONFIG {
        match config_from_bytes(field.payload) {
            Ok(config) => Ok(
                KRecHeaderView { actuator_configs: h.actuator_configs.push(config), ..h },
            ),
            Err(e) => Err(e),
        }
    } else {
        Ok(h)
    }
}

/// `header_step` as a value.
pub open spec fn header_stepper() -> Step<KRecHeaderView> {
    |h: KRecHeaderView, field: Field| header_step(h, field)
}

/// The bytes of a header.
pub open spec fn header_bytes(h: KRecHeaderView) -> Seq<u8> {
    fields_bytes(header_fields(h))
}

/// The header that bytes hold: the empty header, changed by each field in
/// turn.
pub open spec fn header_from_bytes(bytes: Seq<u8>) -> Result<KRecHeaderView, DecodeError> {
    read_record(header_stepper(), KRecHeaderView::empty(), bytes)
}

/// Each of the four texts of a header fits in a field.
pub open spec fn header_texts_fit(h: KRecHeaderView) -> bool {
    &&& text_fits(h.uuid)
    &&& text_fits(h.task)
    &&& text_fits(h.robot_platform)
    &&& text_fits(h.robot_serial)
}

/// Each config of a list can be written.
pub open spec fn configs_encodable(configs: Seq<ActuatorConfigView>) -> bool {
    forall|i: int| 0 <= i < configs.len() ==> config_encodable(#[trigger] configs[i])
}

/// Why a header cannot be written, if it cannot: a text that is too long
/// comes before a config that is too large.
pub open spec fn header_refusal(h: KRecHeaderView) -> Option<EncodeError> {
    if !header_texts_fit(h) {
        Some(EncodeError::HeaderTextTooLong)
    } else if !configs_encodable(h.actuator_configs) {
        Some(EncodeError::ActuatorConfigTooLarge)
    } else {
        None
    }
}

/// A header that can be written: its texts fit and so do its configs.
pub open spec fn header_encodable(h: KRecHeaderView) -> bool {
    header_refusal(h) is None
}

/// Taking in the fields of configs that can be written adds those configs,
/// in order, after the configs already there.
proof fn lemma_absorb_configs(h: KRecHeaderView, configs: Seq<ActuatorConfigView>)
    requires
        configs_encodable(configs),
    ensures
        absorb(header_stepper(), h, config_list_fields(configs)) == Ok::<
            KRecHeaderView,
            DecodeError,
        >(KRecHeaderView { actuator_configs: h.actuator_configs + configs, ..h }),
        fields_fit(config_list_fields(configs)),
    decreases configs.len(),
{
    let parts = config_list_fields(configs);
    if configs.len() == 0 {
        assert(h.actuator_configs + configs =~= h.actuator_configs);
    } else {
        let rest = configs.skip(1);
        let next = KRecHeaderView { actuator_configs: h.actuator_configs.push(configs[0]), ..h };
        assert(configs_encodable(rest)) by {
            assert forall|i: int| 0 <= i < rest.len() implies config_encodable(
                #[trigger] rest[i],
            ) by {
                assert(rest[i] == configs[i + 1]);
            }
        }
        lemma_config_roundtrip(configs[0]);
        lemma_absorb_configs(next, rest);
        lemma_absorb_next(header_stepper(), h, parts);
        assert(parts.skip(1) =~= config_list_fields(rest));
        assert(next.actuator_configs + rest =~= h.actuator_configs + configs);
    }
}

/// A header that can be written is read back from its bytes.
pub proof fn lemma_header_roundtrip(h: KRecHeaderView)
    requires
        header_encodable(h),
    ensures
        header_from_bytes(header_bytes(h)) == Ok::<KRecHeaderView, DecodeError>(h),
{
    let step = header_stepper();
    let f1 = text_field(TAG_UUID, h.uuid);
    let f2 = text_field(TAG_TASK, h.task);
    let f3 = text_field(TAG_ROBOT_PLATFORM, h.robot_platform);
    let f4 = text_field(TAG_ROBOT_SERIAL, h.robot_serial);
    let f5 = u64_field(TAG_START_TIMESTAMP, h.start_timestamp);
    let f6 = u64_field(TAG_END_TIMESTAMP, h.end_timestamp);
    let none = Seq::<Field>::empty();
    let s0 = KRecHeaderView::empty();
    let s1 = KRecHeaderView { uuid: h.uuid, ..s0 };
    let s2 = KRecHeaderView { task: h.task, ..s1 };
    let s3 = KRecHeaderView { robot_platform: h.robot_platform, ..s2 };
    let s4 = KRecHeaderView { robot_serial: h.robot_serial, ..s3 };
    let s5 = KRecHeaderView { start_timestamp: h.start_timestamp, ..s4 };
    let s6 = KRecHeaderView { end_timestamp: h.end_timestamp, ..s5 };
    lemma_text_field(TAG_UUID, h.uuid);
    lemma_text_field(TAG_TASK, h.task);
    lemma_text_field(TAG_ROBOT_PLATFORM, h.robot_platform);
    lemma_text_field(TAG_ROBOT_SERIAL, h.robot_serial);
    lemma_u64_field(TAG_START_TIMESTAMP, h.start_timestamp);
    lemma_u64_field(TAG_END_TIMESTAMP, h.end_timestamp);
    lemma_absorb_one(step, s0, f1);
    lemma_absorb_one(step, s1, f2);
    lemma_absorb_one(step, s2, f3);
    lemma_absorb_one(step, s3, f4);
    lemma_absorb_one(step, s4, f5);
    lemma_absorb_one(step, s5, f6);
    lemma_absorb_append(step, s0, none, seq![f1], s0, s1);
    lemma_absorb_append(step, s0, none + seq![f1], seq![f2], s1, s2);
    lemma_absorb_append(step, s0, none + seq![f1] + seq![f2], seq![f3], s2, s3);
    lemma_absorb_append(step, s0, none + seq![f1] + seq![f2] + seq![f3], seq![f4], s3, s4);
    lemma_absorb_append(
        step,
        s0,
        none + seq![f1] + seq![f2] + seq![f3] + seq![f4],
        seq![f5],
        s4,
        s5,
    );
    lemma_absorb_append(
        step,
        s0,
        none + seq![f1] + seq![f2] + seq![f3] + seq![f4] + seq![f5],
        seq![f6],
        s5,
        s6,
    );
    let scalars = header_scalar_fields(h);
    assert(scalars =~= none + seq![f1] + seq![f2] + seq![f3] + seq![f4] + seq![f5] + seq![f6]);
    assert(fields_fit(scalars));
    lemma_absorb_configs(s6, h.actuator_configs);
    assert(s6.actuator_configs + h.actuator_configs =~= h.actuator_configs);
    lemma_absorb_append(step, s0, scalars, config_list_fields(h.actuator_configs), s6, h);
    lemma_fields_fit_concat(scalars, config_list_fields(h.actuator_configs));
    lemma_parse_fields_roundtrip(header_fields(h));
}

/// Writes a header, or refuses it where a text or a config is too large to
/// be written.
pub fn encode_header(h: &KRecHeader) -> (r: Result<Vec<u8>, EncodeError>)
    ensures
        r is Ok <==> header_encodable(h@),
        match r {
            Ok(bytes) => header_encodable(h@) && bytes@ == header_bytes(h@),
            Err(e) => header_refusal(h@) == Some(e),
        },
{
    let mut bytes: Vec<u8> = Vec::new();
    let ghost f1 = text_field(TAG_UUID, h@.uuid);
    let ghost f2 = text_field(TAG_TASK, h@.task);
    let ghost f3 = text_field(TAG_ROBOT_PLATFORM, h@.robot_platform);
    let ghost f4 = text_field(TAG_ROBOT_SERIAL, h@.robot_serial);
    let ghost f5 = u64_field(TAG_START_TIMESTAMP, h.start_timestamp);
    let ghost f6 = u64_field(TAG_END_TIMESTAMP, h.end_timestamp);
    let ghost none = Seq::<Field>::empty();
    let ghost scalars = header_scalar_fields(h@);
    let ghost configs = h@.actuator_configs;
    if !put_text(&mut bytes, TAG_UUID, h.uuid.as_str()) {
        return Err(EncodeError::HeaderTextTooLong);
    }
    if !put_text(&mut bytes, TAG_TASK, h.task.as_str()) {
        return Err(EncodeError::HeaderTextTooLong);
    }
    if !put_text(&mut bytes, TAG_ROBOT_PLATFORM, h.robot_platform.as_str()) {
        return Err(EncodeError::HeaderTextTooLong);
    }
    if !put_text(&mut bytes, TAG_ROBOT_SERIAL, h.robot_serial.as_str()) {
        return Err(EncodeError::HeaderTextTooLong);
    }
    put_u64(&mut bytes, TAG_START_TIMESTAMP, h.start_timestamp);
    put_u64(&mut bytes, TAG_END_TIMESTAMP, h.end_timestamp);
    proof {
        lemma_fields_bytes_push(none, f1);
        lemma_fields_bytes_push(none + seq![f1], f2);
        lemma_fields_bytes_push(none + seq![f1] + seq![f2], f3);
        lemma_fields_bytes_push(none + seq![f1] + seq![f2] + seq![f3], f4);
        lemma_fields_bytes_push(none + seq![f1] + seq![f2] + seq![f3] + seq![f4], f5);
        lemma_fields_bytes_push(none + seq![f1] + seq![f2] + seq![f3] + seq![f4] + seq![f5], f6);
        assert(scalars =~= none + seq![f1] + seq![f2] + seq![f3] + seq![f4] + seq![f5] + seq![f6]);
        assert(bytes@ =~= fields_bytes(scalars));
        assert(configs.take(0) =~= Seq::<ActuatorConfigView>::empty());
        assert(config_list_fields(configs.take(0)) =~= none);
        assert(scalars + none =~= scalars);
    }
    let mut i: usize = 0;
    while i < h.actuator_configs.len()
        invariant
            i <= h.actuator_configs@.len(),
            configs == h@.actuator_configs,
            scalars == header_scalar_fields(h@),
            header_texts_fit(h@),
            configs_encodable(configs.take(i as int)),
            bytes@ == fields_bytes(scalars + config_list_fields(configs.take(i as int))),
        decreases h.actuator_configs@.len() - i,
    {
        let ghost done = configs.take(i as int);
        let ghost field = Field { tag: TAG_ACTUATOR_CONFIG, payload: config_bytes(configs[i as int]) };
        proof {
            assert(configs[i as int] == h.actuator_configs@[i as int]@);
        }
        let payload = match encode_config(&h.actuator_configs[i]) {
            Ok(payload) => payload,
            Err(e) => {
                return Err(e);
            },
        };
        let fits = put_field(&mut bytes, TAG_ACTUATOR_CONFIG, payload.as_slice());
        assert(fits);
        i = i + 1;
        proof {
            let more = configs.take(i as int);
            assert(more =~= done.push(configs[i - 1]));
            assert(config_list_fields(more) =~= config_list_fields(done) + seq![field]);
            assert(scalars + config_list_fields(more) =~= (scalars + config_list_fields(done))
                + seq![field]);
            lemma_fields_bytes_push(scalars + config_list_fields(done), field);
            assert(configs_encodable(more)) by {
                assert forall|j: int| 0 <= j < more.len() implies config_encodable(
                    #[trigger] more[j],
                ) by {
                    if j < i - 1 {
                        assert(more[j] == done[j]);
                    }
                }
            }
        }
    }
    proof {
        assert(configs.take(i as int) =~= configs);
    }
    Ok(bytes)
}

/// Takes one field into a header.
fn take_header_field(h: KRecHeader, field: &RawField) -> (r: Result<KRecHeader, DecodeError>)
    ensures
        match r {
            Ok(next) => header_step(h@, field@) == Ok::<KRecHeaderView, DecodeError>(next@),
            Err(e) => header_step(h@, field@) == Err::<KRecHeaderView, DecodeError>(e),
        },
{
    if field.tag == TAG_UUID {
        match read_text(field.payload) {
            Ok(uuid) => Ok(KRecHeader { uuid, ..h }),
            Err(e) => Err(e),
        }
    } else if field.tag == TAG_TASK {
        match read_text(field.payload) {
            Ok(task) => Ok(KRecHeader { task, ..h }),
            Err(e) => Err(e),
        }
    } else if field.tag == TAG_ROBOT_PLATFORM {
        match read_text(field.payload) {
            Ok(robot_platform) => Ok(KRecHeader { robot_platform, ..h }),
            Err(e) => Err(e),
        }
    } else if field.tag == TAG_ROBOT_SERIAL {
        match read_text(field.payload) {
            Ok(robot_serial) => Ok(KRecHeader { robot_serial, ..h }),
            Err(e) => Err(e),
        }
    } else if field.tag == TAG_START_TIMESTAMP {
        match read_u64(field.payload) {
            Ok(start_timestamp) => Ok(KRecHeader { start_timestamp, ..h }),
            Err(e) => Err(e),
        }
    } else if field.tag == TAG_END_TIMESTAMP {
        match read_u64(field.payload) {
            Ok(end_timestamp) => Ok(KRecHeader { end_timestamp, ..h }),
            Err(e) => Err(e),
        }
    } else if field.tag == TAG_ACTUATOR_CONFIG {
        match decode_config(field.payload) {
            Ok(config) => {
                let mut next = h;
                next.add_actuator_config(config);
                Ok(next)
            },
            Err(e) => Err(e),
        }
    } else {
        Ok(h)
    }
}

/// Reads a header.
pub fn decode_header(bytes: &[u8]) -> (r: Result<KRecHeader, DecodeError>)
    ensures
        match r {
            Ok(h) => header_from_bytes(bytes@) == Ok::<KRecHeaderView, DecodeError>(h@),
            Err(e) => header_from_bytes(bytes@) == Err::<KRecHeaderView, DecodeError>(e),
        },
{
    let fields = match split_fields(bytes) {
        Some(fields) => fields,
        None => return Err(DecodeError::Malformed),
    };
    let ghost all = raw_views(fields@);
    let mut h = KRecHeader::default();
    let mut i: usize = 0;
    proof {
        assert(all.skip(0) =~= all);
    }
    while i < fields.len()
        invariant
            i <= fields@.len(),
            all == raw_views(fields@),
            parse_fields(bytes@) == Some(all),
            absorb(header_stepper(), KRecHeaderView::empty(), all) == absorb(
                header_stepper(),
                h@,
                all.skip(i as int),
            ),
        decreases fields@.len() - i,
    {
        proof {
            assert(all.skip(i as int)[0] == fields@[i as int]@);
            assert(all.skip(i as int).skip(1) =~= all.skip(i + 1));
            lemma_absorb_next(header_stepper(), h@, all.skip(i as int));
        }
        match take_header_field(h, &fields[i]) {
            Ok(next) => {
                h = next;
            },
            Err(e) => {
                return Err(e);
            },
        }
        i = i + 1;
    }
    Ok(h)
}

} // verus!
