//! The binary form of vectors, quaternions and IMU samples.

use crate::error::DecodeError;
use crate::payload::{f64_field, lemma_u64_field, payload_f64, put_f64, read_f64};
use crate::record::{
    absorb, lemma_absorb_append, lemma_absorb_next, lemma_absorb_one, read_record, Step,
};
use crate::schema::{ImuQuaternion, ImuValues, Vec3};
use crate::wire::{
    field_bytes, fields_bytes, fields_fit, lemma_fields_bytes_concat, lemma_fields_bytes_push,
    lemma_fields_fit_concat, lemma_parse_fields_roundtrip, parse_fields, put_field, raw_views,
    split_fields, Field, RawField,
};
use vstd::prelude::*;

verus! {

/// The tag of the x component of a vector or a quaternion.
pub const TAG_X: u8 = 1;

/// The tag of the y component of a vector or a quaternion.
pub const TAG_Y: u8 = 2;

/// The tag of the z component of a vector or a quaternion.
pub const TAG_Z: u8 = 3;

/// The tag of the w component of a quaternion.
pub const TAG_W: u8 = 4;

/// The tag of the acceleration of an IMU sample.
pub const TAG_ACCEL: u8 = 1;

/// The tag of the angular rate of an IMU sample.
pub const TAG_GYRO: u8 = 2;

/// The tag of the magnetic field of an IMU sample.
pub const TAG_MAG: u8 = 3;

/// The tag of the orientation of an IMU sample.
pub const TAG_QUATERNION: u8 = 4;

/// The fields of a vector: x, y, z.
pub open spec fn vec3_fields(v: Vec3) -> Seq<Field> {
    seq![f64_field(TAG_X, v.x), f64_field(TAG_Y, v.y), f64_field(TAG_Z, v.z)]
}

/// What one field does to a vector.
pub open spec fn vec3_step(v: Vec3, field: Field) -> Result<Vec3, DecodeError> {
    if field.tag == TAG_X {
        match payload_f64(field.payload) {
            Ok(x) => Ok(Vec3 { x, ..v }),
            Err(e) => Err(e),
        }
    } else if field.tag == TAG_Y {
        match payload_f64(field.payload) {
            Ok(y) => Ok(Vec3 { y, ..v }),
            Err(e) => Err(e),
        }
    } else if field.tag == TAG_Z {
        match payload_f64(field.payload) {
            Ok(z) => Ok(Vec3 { z, ..v }),
            Err(e) => Err(e),
        }
    } else {
        Ok(v)
    }
}

/// `vec3_step` as a value.
pub open spec fn vec3_stepper() -> Step<Vec3> {
    |v: Vec3, field: Field| vec3_step(v, field)
}

/// The bytes of a vector.
pub open spec fn vec3_bytes(v: Vec3) -> Seq<u8> {
    fields_bytes(vec3_fields(v))
}

/// The vector that bytes hold: the zero vector, changed by each field in
/// turn.
pub open spec fn vec3_from_bytes(bytes: Seq<u8>) -> Result<Vec3, DecodeError> {
    read_record(vec3_stepper(), Vec3::zero(), bytes)
}

/// A vector is read back from its bytes, of which there are 33.
pub proof fn lemma_vec3_roundtrip(v: Vec3)
    ensures
        vec3_from_bytes(vec3_bytes(v)) == Ok::<Vec3, DecodeError>(v),
        vec3_bytes(v).len() == 33,
{
    let step = vec3_stepper();
    let fx = f64_field(TAG_X, v.x);
    let fy = f64_field(TAG_Y, v.y);
    let fz = f64_field(TAG_Z, v.z);
    let none = Seq::<Field>::empty();
    let s0 = Vec3::zero();
    let s1 = Vec3 { x: v.x, ..s0 };
    let s2 = Vec3 { y: v.y, ..s1 };
    lemma_u64_field(TAG_X, v.x.bits);
    lemma_u64_field(TAG_Y, v.y.bits);
    lemma_u64_field(TAG_Z, v.z.bits);
    lemma_absorb_one(step, s0, fx);
    lemma_absorb_one(step, s1, fy);
    lemma_absorb_one(step, s2, fz);
    lemma_absorb_append(step, s0, none, seq![fx], s0, s1);
    lemma_absorb_append(step, s0, none + seq![fx], seq![fy], s1, s2);
    lemma_absorb_append(step, s0, none + seq![fx] + seq![fy], seq![fz], s2, v);
    lemma_fields_bytes_push(none, fx);
    lemma_fields_bytes_push(none + seq![fx], fy);
    lemma_fields_bytes_push(none + seq![fx] + seq![fy], fz);
    assert(vec3_fields(v) =~= none + seq![fx] + seq![fy] + seq![fz]);
    assert(fields_fit(vec3_fields(v)));
    lemma_parse_fields_roundtrip(vec3_fields(v));
}

/// Writes a vector.
pub fn encode_vec3(v: &Vec3) -> (bytes: Vec<u8>)
    ensures
        bytes@ == vec3_bytes(*v),
{
    let mut bytes: Vec<u8> = Vec::new();
    let ghost fx = f64_field(TAG_X, v.x);
    let ghost fy = f64_field(TAG_Y, v.y);
    let ghost fz = f64_field(TAG_Z, v.z);
    let ghost none = Seq::<Field>::empty();
    put_f64(&mut bytes, TAG_X, v.x);
    put_f64(&mut bytes, TAG_Y, v.y);
    put_f64(&mut bytes, TAG_Z, v.z);
    proof {
        lemma_fields_bytes_push(none, fx);
        lemma_fields_bytes_push(none + seq![fx], fy);
        lemma_fields_bytes_push(none + seq![fx] + seq![fy], fz);
        assert(vec3_fields(*v) =~= none + seq![fx] + seq![fy] + seq![fz]);
        assert(bytes@ =~= fields_bytes(none + seq![fx] + seq![fy] + seq![fz]));
    }
    bytes
}

/// Takes one field into a vector.
fn take_vec3_field(v: Vec3, field: &RawField) -> (r: Result<Vec3, DecodeError>)
    ensures
        r == vec3_step(v, field@),
{
    if field.tag == TAG_X {
        match read_f64(field.payload) {
            Ok(x) => Ok(Vec3 { x, ..v }),
            Err(e) => Err(e),
        }
    } else if field.tag == TAG_Y {
        match read_f64(field.payload) {
            Ok(y) => Ok(Vec3 { y, ..v }),
            Err(e) => Err(e),
        }
    } else if field.tag == TAG_Z {
        match read_f64(field.payload) {
            Ok(z) => Ok(Vec3 { z, ..v }),
            Err(e) => Err(e),
        }
    } else {
        Ok(v)
    }
}

/// Reads a vector.
pub fn decode_vec3(bytes: &[u8]) -> (r: Result<Vec3, DecodeError>)
    ensures
        r == vec3_from_bytes(bytes@),
{
    let fields = match split_fields(bytes) {
        Some(fields) => fields,
        None => return Err(DecodeError::Malformed),
    };
    let ghost all = raw_views(fields@);
    let mut v = Vec3::default();
    let mut i: usize = 0;
    proof {
        assert(all.skip(0) =~= all);
    }
    while i < fields.len()
        invariant
            i <= fields@.len(),
            all == raw_views(fields@),
            parse_fields(bytes@) == Some(all),
            absorb(vec3_stepper(), Vec3::zero(), all) == absorb(
                vec3_stepper(),
                v,
                all.skip(i as int),
            ),
        decreases fields@.len() - i,
    {
        proof {
            assert(all.skip(i as int)[0] == fields@[i as int]@);
            assert(all.skip(i as int).skip(1) =~= all.skip(i + 1));
            lemma_absorb_next(vec3_stepper(), v, all.skip(i as int));
        }
        match take_vec3_field(v, &fields[i]) {
            Ok(next) => {
                v = next;
            },
            Err(e) => {
                return Err(e);
            },
        }
        i = i + 1;
    }
    Ok(v)
}

/// The fields of a quaternion: x, y, z, w.
pub open spec fn quaternion_fields(q: ImuQuaternion) -> Seq<Field> {
    seq![
        f64_field(TAG_X, q.x),
        f64_field(TAG_Y, q.y),
        f64_field(TAG_Z, q.z),
        f64_field(TAG_W, q.w),
    ]
}

/// What one field does to a quaternion.
pub open spec fn quaternion_step(q: ImuQuaternion, field: Field) -> Result<
    ImuQuaternion,
    DecodeError,
> {
    if field.tag == TAG_X {
        match payload_f64(field.payload) {
            Ok(x) => Ok(ImuQuaternion { x, ..q }),
            Err(e) => Err(e),
        }
    } else if field.tag == TAG_Y {
        match payload_f64(field.payload) {
            Ok(y) => Ok(ImuQuaternion { y, ..q }),
            Err(e) => Err(e),
        }
    } else if field.tag == TAG_Z {
        match payload_f64(field.payload) {
            Ok(z) => Ok(ImuQuaternion { z, ..q }),
            Err(e) => Err(e),
        }
    } else if field.tag == TAG_W {
        match payload_f64(field.payload) {
            Ok(w) => Ok(ImuQuaternion { w, ..q }),
            Err(e) => Err(e),
        }
    } else {
        Ok(q)
    }
}

/// `quaternion_step` as a value.
pub open spec fn quaternion_stepper() -> Step<ImuQuaternion> {
    |q: ImuQuaternion, field: Field| quaternion_step(q, field)
}

/// The bytes of a quaternion.
pub open spec fn quaternion_bytes(q: ImuQuaternion) -> Seq<u8> {
    fields_bytes(quaternion_fields(q))
}

/// The quaternion that bytes hold: the identity, changed by each field in
/// turn.
pub open spec fn quaternion_from_bytes(bytes: Seq<u8>) -> Result<ImuQuaternion, DecodeError> {
    read_record(quaternion_stepper(), ImuQuaternion::identity(), bytes)
}

/// A quaternion is read back from its bytes, of which there are 44.
pub proof fn lemma_quaternion_roundtrip(q: ImuQuaternion)
    ensures
        quaternion_from_bytes(quaternion_bytes(q)) == Ok::<ImuQuaternion, DecodeError>(q),
        quaternion_bytes(q).len() == 44,
{
    let step = quaternion_stepper();
    let fx = f64_field(TAG_X, q.x);
    let fy = f64_field(TAG_Y, q.y);
    let fz = f64_field(TAG_Z, q.z);
    let fw = f64_field(TAG_W, q.w);
    let none = Seq::<Field>::empty();
    let s0 = ImuQuaternion::identity();
    let s1 = ImuQuaternion { x: q.x, ..s0 };
    let s2 = ImuQuaternion { y: q.y, ..s1 };
    let s3 = ImuQuaternion { z: q.z, ..s2 };
    lemma_u64_field(TAG_X, q.x.bits);
    lemma_u64_field(TAG_Y, q.y.bits);
    lemma_u64_field(TAG_Z, q.z.bits);
    lemma_u64_field(TAG_W, q.w.bits);
    lemma_absorb_one(step, s0, fx);
    lemma_absorb_one(step, s1, fy);
    lemma_absorb_one(step, s2, fz);
    lemma_absorb_one(step, s3, fw);
    lemma_absorb_append(step, s0, none, seq![fx], s0, s1);
    lemma_absorb_append(step, s0, none + seq![fx], seq![fy], s1, s2);
    lemma_absorb_append(step, s0, none + seq![fx] + seq![fy], seq![fz], s2, s3);
    lemma_absorb_append(step, s0, none + seq![fx] + seq![fy] + seq![fz], seq![fw], s3, q);
    lemma_fields_bytes_push(none, fx);
    lemma_fields_bytes_push(none + seq![fx], fy);
    lemma_fields_bytes_push(none + seq![fx] + seq![fy], fz);
    lemma_fields_bytes_push(none + seq![fx] + seq![fy] + seq![fz], fw);
    assert(quaternion_fields(q) =~= none + seq![fx] + seq![fy] + seq![fz] + seq![fw]);
    assert(fields_fit(quaternion_fields(q)));
    lemma_parse_fields_roundtrip(quaternion_fields(q));
}

/// Writes a quaternion.
pub fn encode_quaternion(q: &ImuQuaternion) -> (bytes: Vec<u8>)
    ensures
        bytes@ == quaternion_bytes(*q),
{
    let mut bytes: Vec<u8> = Vec::new();
    let ghost fx = f64_field(TAG_X, q.x);
    let ghost fy = f64_field(TAG_Y, q.y);
    let ghost fz = f64_field(TAG_Z, q.z);
    let ghost fw = f64_field(TAG_W, q.w);
    let ghost none = Seq::<Field>::empty();
    put_f64(&mut bytes, TAG_X, q.x);
    put_f64(&mut bytes, TAG_Y, q.y);
    put_f64(&mut bytes, TAG_Z, q.z);
    put_f64(&mut bytes, TAG_W, q.w);
    proof {
        lemma_fields_bytes_push(none, fx);
        lemma_fields_bytes_push(none + seq![fx], fy);
        lemma_fields_bytes_push(none + seq![fx] + seq![fy], fz);
        lemma_fields_bytes_push(none + seq![fx] + seq![fy] + seq![fz], fw);
        assert(quaternion_fields(*q) =~= none + seq![fx] + seq![fy] + seq![fz] + seq![fw]);
        assert(bytes@ =~= fields_bytes(none + seq![fx] + seq![fy] + seq![fz] + seq![fw]));
    }
    bytes
}

/// Takes one field into a quaternion.
fn take_quaternion_field(q: ImuQuaternion, field: &RawField) -> (r: Result<
    ImuQuaternion,
    DecodeError,
>)
    ensures
        r == quaternion_step(q, field@),
{
    if field.tag == TAG_X {
        match read_f64(field.payload) {
            Ok(x) => Ok(ImuQuaternion { x, ..q }),
            Err(e) => Err(e),
        }
    } else if field.tag == TAG_Y {
        match read_f64(field.payload) {
            Ok(y) => Ok(ImuQuaternion { y, ..q }),
            Err(e) => Err(e),
        }
    } else if field.tag == TAG_Z {
        match read_f64(field.payload) {
            Ok(z) => Ok(ImuQuaternion { z, ..q }),
            Err(e) => Err(e),
        }
    } else if field.tag == TAG_W {
        match read_f64(field.payload) {
            Ok(w) => Ok(ImuQuaternion { w, ..q }),
            Err(e) => Err(e),
        }
    } else {
        Ok(q)
    }
}

/// Reads a quaternion.
pub fn decode_quaternion(bytes: &[u8]) -> (r: Result<ImuQuaternion, DecodeError>)
    ensures
        r == quaternion_from_bytes(bytes@),
{
    let fields = match split_fields(bytes) {
        Some(fields) => fields,
        None => return Err(DecodeError::Malformed),
    };
    let ghost all = raw_views(fields@);
    let mut q = ImuQuaternion::default();
    let mut i: usize = 0;
    proof {
        assert(all.skip(0) =~= all);
    }
    while i < fields.len()
        invariant
            i <= fields@.len(),
            all == raw_views(fields@),
            parse_fields(bytes@) == Some(all),
            absorb(quaternion_stepper(), ImuQuaternion::identity(), all) == absorb(
                quaternion_stepper(),
                q,
                all.skip(i as int),
            ),
        decreases fields@.len() - i,
    {
        proof {
            assert(all.skip(i as int)[0] == fields@[i as int]@);
            assert(all.skip(i as int).skip(1) =~= all.skip(i + 1));
            lemma_absorb_next(quaternion_stepper(), q, all.skip(i as int));
        }
        match take_quaternion_field(q, &fields[i]) {
            Ok(next) => {
                q = next;
            },
            Err(e) => {
                return Err(e);
            },
        }
        i = i + 1;
    }
    Ok(q)
}

/// The field of a vector that may be absent: none where it is.
pub open spec fn optional_vec3(tag: u8, value: Option<Vec3>) -> Seq<Field> {
    match value {
        Some(v) => seq![Field { tag, payload: vec3_bytes(v) }],
        None => Seq::empty(),
    }
}

/// The field of a quaternion that may be absent: none where it is.
pub open spec fn optional_quaternion(tag: u8, value: Option<ImuQuaternion>) -> Seq<Field> {
    match value {
        Some(q) => seq![Field { tag, payload: quaternion_bytes(q) }],
        None => Seq::empty(),
    }
}

/// The fields of an IMU sample: of the acceleration, the angular rate, the
/// magnetic field and the orientation, those that are present.
pub open spec fn imu_fields(imu: ImuValues) -> Seq<Field> {
    optional_vec3(TAG_ACCEL, imu.accel) + optional_vec3(TAG_GYRO, imu.gyro) + optional_vec3(
        TAG_MAG,
        imu.mag,
    ) + optional_quaternion(TAG_QUATERNION, imu.quaternion)
}

/// What one field does to an IMU sample.
pub open spec fn imu_step(imu: ImuValues, field: Field) -> Result<ImuValues, DecodeError> {
    if field.tag == TAG_ACCEL {
        match vec3_from_bytes(field.payload) {
            Ok(v) => Ok(ImuValues { accel: Some(v), ..imu }),
            Err(e) => Err(e),
        }
    } else if field.tag == TAG_GYRO {
        match vec3_from_bytes(field.payload) {
            Ok(v) => Ok(ImuValues { gyro: Some(v), ..imu }),
            Err(e) => Err(e),
        }
    } else if field.tag == TAG_MAG {
        match vec3_from_bytes(field.payload) {
            Ok(v) => Ok(ImuValues { mag: Some(v), ..imu }),
            Err(e) => Err(e),
        }
    } else if field.tag == TAG_QUATERNION {
        match quaternion_from_bytes(field.payload) {
            Ok(q) => Ok(ImuValues { quaternion: Some(q), ..imu }),
            Err(e) => Err(e),
        }
    } else {
        Ok(imu)
    }
}

/// `imu_step` as a value.
pub open spec fn imu_stepper() -> Step<ImuValues> {
    |imu: ImuValues, field: Field| imu_step(imu, field)
}

/// The bytes of an IMU sample.
pub open spec fn imu_bytes(imu: ImuValues) -> Seq<u8> {
    fields_bytes(imu_fields(imu))
}

/// The IMU sample that bytes hold: the empty sample, changed by each field in
/// turn.
pub open spec fn imu_from_bytes(bytes: Seq<u8>) -> Result<ImuValues, DecodeError> {
    read_record(imu_stepper(), ImuValues::empty(), bytes)
}

/// Taking in the field of an optional vector sets that member, or leaves it
/// absent.
proof fn lemma_absorb_optional_vec3(
    tag: u8,
    value: Option<Vec3>,
    before: ImuValues,
    after: ImuValues,
)
    requires
        value is Some ==> imu_step(before, Field { tag, payload: vec3_bytes(value->Some_0) })
            == Ok::<ImuValues, DecodeError>(after),
        value is None ==> after == before,
    ensures
        absorb(imu_stepper(), before, optional_vec3(tag, value)) == Ok::<ImuValues, DecodeError>(
            after,
        ),
        fields_fit(optional_vec3(tag, value)),
        fields_bytes(optional_vec3(tag, value)).len() <= 36,
{
    match value {
        Some(v) => {
            let field = Field { tag, payload: vec3_bytes(v) };
            lemma_vec3_roundtrip(v);
            lemma_absorb_one(imu_stepper(), before, field);
            lemma_fields_bytes_push(Seq::<Field>::empty(), field);
            assert(Seq::<Field>::empty() + seq![field] =~= seq![field]);
        },
        None => {},
    }
}

/// An IMU sample is read back from its bytes, of which there are at most
/// 155.
pub proof fn lemma_imu_roundtrip(imu: ImuValues)
    ensures
        imu_from_bytes(imu_bytes(imu)) == Ok::<ImuValues, DecodeError>(imu),
        imu_bytes(imu).len() <= 155,
{
    let step = imu_stepper();
    let part1 = optional_vec3(TAG_ACCEL, imu.accel);
    let part2 = optional_vec3(TAG_GYRO, imu.gyro);
    let part3 = optional_vec3(TAG_MAG, imu.mag);
    let part4 = optional_quaternion(TAG_QUATERNION, imu.quaternion);
    let s0 = ImuValues::empty();
    let s1 = ImuValues { accel: imu.accel, ..s0 };
    let s2 = ImuValues { gyro: imu.gyro, ..s1 };
    let s3 = ImuValues { mag: imu.mag, ..s2 };
    if imu.accel is Some {
        lemma_vec3_roundtrip(imu.accel->Some_0);
    }
    if imu.gyro is Some {
        lemma_vec3_roundtrip(imu.gyro->Some_0);
    }
    if imu.mag is Some {
        lemma_vec3_roundtrip(imu.mag->Some_0);
    }
    lemma_absorb_optional_vec3(TAG_ACCEL, imu.accel, s0, s1);
    lemma_absorb_optional_vec3(TAG_GYRO, imu.gyro, s1, s2);
    lemma_absorb_optional_vec3(TAG_MAG, imu.mag, s2, s3);
    match imu.quaternion {
        Some(q) => {
            let field = Field { tag: TAG_QUATERNION, payload: quaternion_bytes(q) };
            lemma_quaternion_roundtrip(q);
            lemma_absorb_one(step, s3, field);
            lemma_fields_bytes_push(Seq::<Field>::empty(), field);
            assert(Seq::<Field>::empty() + seq![field] =~= seq![field]);
        },
        None => {},
    }
    assert(absorb(step, s3, part4) == Ok::<ImuValues, DecodeError>(imu));
    assert(fields_fit(part4));
    assert(fields_bytes(part4).len() <= 47);
    lemma_absorb_append(step, s0, part1, part2, s1, s2);
    lemma_absorb_append(step, s0, part1 + part2, part3, s2, s3);
    lemma_absorb_append(step, s0, part1 + part2 + part3, part4, s3, imu);
    lemma_fields_fit_concat(part1, part2);
    lemma_fields_fit_concat(part1 + part2, part3);
    lemma_fields_fit_concat(part1 + part2 + part3, part4);
    lemma_fields_bytes_concat(part1, part2);
    lemma_fields_bytes_concat(part1 + part2, part3);
    lemma_fields_bytes_concat(part1 + part2 + part3, part4);
    lemma_parse_fields_roundtrip(imu_fields(imu));
}

/// Appends the field of a vector that may be absent.
fn put_optional_vec3(out: &mut Vec<u8>, tag: u8, value: &Option<Vec3>)
    ensures
        final(out)@ == old(out)@ + fields_bytes(optional_vec3(tag, *value)),
{
    match value {
        Some(v) => {
            let payload = encode_vec3(v);
            proof {
                lemma_vec3_roundtrip(*v);
                let field = Field { tag, payload: vec3_bytes(*v) };
                lemma_fields_bytes_push(Seq::<Field>::empty(), field);
                assert(Seq::<Field>::empty() + seq![field] =~= seq![field]);
                assert(fields_bytes(Seq::<Field>::empty()) + field_bytes(field)
                    =~= field_bytes(field));
            }
            let fits = put_field(out, tag, payload.as_slice());
            assert(fits);
        },
        None => {
            proof {
                assert(old(out)@ + fields_bytes(Seq::<Field>::empty()) =~= old(out)@);
            }
        },
    }
}

/// Appends the field of a quaternion that may be absent.
fn put_optional_quaternion(out: &mut Vec<u8>, tag: u8, value: &Option<ImuQuaternion>)
    ensures
        final(out)@ == old(out)@ + fields_bytes(optional_quaternion(tag, *value)),
{
    match value {
        Some(q) => {
            let payload = encode_quaternion(q);
            proof {
                lemma_quaternion_roundtrip(*q);
                let field = Field { tag, payload: quaternion_bytes(*q) };
                lemma_fields_bytes_push(Seq::<Field>::empty(), field);
                assert(Seq::<Field>::empty() + seq![field] =~= seq![field]);
                assert(fields_bytes(Seq::<Field>::empty()) + field_bytes(field)
                    =~= field_bytes(field));
            }
            let fits = put_field(out, tag, payload.as_slice());
            assert(fits);
        },
        None => {
            proof {
                assert(old(out)@ + fields_bytes(Seq::<Field>::empty()) =~= old(out)@);
            }
        },
    }
}

/// Writes an IMU sample.
pub fn encode_imu(imu: &ImuValues) -> (bytes: Vec<u8>)
    ensures
        bytes@ == imu_bytes(*imu),
{
    let mut bytes: Vec<u8> = Vec::new();
    let ghost part1 = optional_vec3(TAG_ACCEL, imu.accel);
    let ghost part2 = optional_vec3(TAG_GYRO, imu.gyro);
    let ghost part3 = optional_vec3(TAG_MAG, imu.mag);
    let ghost part4 = optional_quaternion(TAG_QUATERNION, imu.quaternion);
    put_optional_vec3(&mut bytes, TAG_ACCEL, &imu.accel);
    put_optional_vec3(&mut bytes, TAG_GYRO, &imu.gyro);
    put_optional_vec3(&mut bytes, TAG_MAG, &imu.mag);
    put_optional_quaternion(&mut bytes, TAG_QUATERNION, &imu.quaternion);
    proof {
        lemma_fields_bytes_concat(part1, part2);
        lemma_fields_bytes_concat(part1 + part2, part3);
        lemma_fields_bytes_concat(part1 + part2 + part3, part4);
        assert(bytes@ =~= fields_bytes(part1) + fields_bytes(part2) + fields_bytes(part3) + fields_bytes(
            part4,
        ));
    }
    bytes
}

/// Takes one field into an IMU sample.
fn take_imu_field(imu: ImuValues, field: &RawField) -> (r: Result<ImuValues, DecodeError>)
    ensures
        r == imu_step(imu, field@),
{
    if field.tag == TAG_ACCEL {
        match decode_vec3(field.payload) {
            Ok(v) => Ok(ImuValues { accel: Some(v), ..imu }),
            Err(e) => Err(e),
        }
    } else if field.tag == TAG_GYRO {
        match decode_vec3(field.payload) {
            Ok(v) => Ok(ImuValues { gyro: Some(v), ..imu }),
            Err(e) => Err(e),
        }
    } else if field.tag == TAG_MAG {
        match decode_vec3(field.payload) {
            Ok(v) => Ok(ImuValues { mag: Some(v), ..imu }),
            Err(e) => Err(e),
        }
    } else if field.tag == TAG_QUATERNION {
        match decode_quaternion(field.payload) {
            Ok(q) => Ok(ImuValues { quaternion: Some(q), ..imu }),
            Err(e) => Err(e),
        }
    } else {
        Ok(imu)
    }
}

/// Reads an IMU sample.
pub fn decode_imu(bytes: &[u8]) -> (r: Result<ImuValues, DecodeError>)
    ensures
        r == imu_from_bytes(bytes@),
{
    let fields = match split_fields(bytes) {
        Some(fields) => fields,
        None => return Err(DecodeError::Malformed),
    };
    let ghost all = raw_views(fields@);
    let mut imu = ImuValues::default();
    let mut i: usize = 0;
    proof {
        assert(all.skip(0) =~= all);
    }
    while i < fields.len()
        invariant
            i <= fields@.len(),
            all == raw_views(fields@),
            parse_fields(bytes@) == Some(all),
            absorb(imu_stepper(), ImuValues::empty(), all) == absorb(
                imu_stepper(),
                imu,
                all.skip(i as int),
            ),
        decreases fields@.len() - i,
    {
        proof {
            assert(all.skip(i as int)[0] == fields@[i as int]@);
            assert(all.skip(i as int).skip(1) =~= all.skip(i + 1));
            lemma_absorb_next(imu_stepper(), imu, all.skip(i as int));
        }
        match take_imu_field(imu, &fields[i]) {
            Ok(next) => {
                imu = next;
            },
            Err(e) => {
                return Err(e);
            },
        }
        i = i + 1;
    }
    Ok(imu)
}

} // verus!
