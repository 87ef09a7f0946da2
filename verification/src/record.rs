//! How a record is read from its fields: one field at a time, each known tag
//! updating the record, each unknown tag left aside.

use crate::error::DecodeError;
use crate::wire::{parse_fields, Field};
use vstd::prelude::*;

verus! {

/// What one field does to a record of type `R`.
pub type Step<R> = spec_fn(R, Field) -> Result<R, DecodeError>;

/// The record that results from `start` once `fields` have been taken in, in
/// order; the first field that is refused ends the reading.
pub open spec fn absorb<R>(step: Step<R>, start: R, fields: Seq<Field>) -> Result<R, DecodeError>
    decreases fields.len(),
{
    if fields.len() == 0 {
        Ok(start)
    } else {
        match step(start, fields[0]) {
            Ok(next) => absorb(step, next, fields.skip(1)),
            Err(e) => Err(e),
        }
    }
}

/// The record that the bytes of a record body hold, read on top of `start`.
pub open spec fn read_record<R>(step: Step<R>, start: R, bytes: Seq<u8>) -> Result<R, DecodeError> {
    match parse_fields(bytes) {
        Some(fields) => absorb(step, start, fields),
        None => Err(DecodeError::Malformed),
    }
}

/// Taking in fields begins with one step on the first of them.
pub proof fn lemma_absorb_next<R>(step: Step<R>, start: R, fields: Seq<Field>)
    requires
        fields.len() > 0,
    ensures
        absorb(step, start, fields) == match step(start, fields[0]) {
            Ok(next) => absorb(step, next, fields.skip(1)),
            Err(e) => Err(e),
        },
{
}

/// Taking in a single field is one step.
pub proof fn lemma_absorb_one<R>(step: Step<R>, start: R, field: Field)
    ensures
        absorb(step, start, seq![field]) == step(start, field),
{
    let one = seq![field];
    assert(one.skip(1) =~= Seq::<Field>::empty());
    assert(one[0] == field);
    match step(start, field) {
        Ok(next) => {
            assert(absorb(step, next, one.skip(1)) == Ok::<R, DecodeError>(next));
        },
        Err(_) => {},
    }
}

/// Taking in two runs of fields, joined, is taking in the first and then the
/// second.
pub proof fn lemma_absorb_concat<R>(step: Step<R>, start: R, first: Seq<Field>, second: Seq<Field>)
    ensures
        absorb(step, start, first + second) == match absorb(step, start, first) {
            Ok(mid) => absorb(step, mid, second),
            Err(e) => Err(e),
        },
    decreases first.len(),
{
    if first.len() == 0 {
        assert(first + second =~= second);
    } else {
        assert((first + second)[0] == first[0]);
        assert((first + second).skip(1) =~= first.skip(1) + second);
        match step(start, first[0]) {
            Ok(next) => lemma_absorb_concat(step, next, first.skip(1), second),
            Err(_) => {},
        }
    }
}

/// Taking in the field of a member that may be absent: one step where the
/// member is present, nothing where it is not.
pub proof fn lemma_absorb_optional<R>(step: Step<R>, before: R, part: Seq<Field>, after: R)
    requires
        part.len() <= 1,
        part.len() == 1 ==> step(before, part[0]) == Ok::<R, DecodeError>(after),
        part.len() == 0 ==> after == before,
    ensures
        absorb(step, before, part) == Ok::<R, DecodeError>(after),
{
    if part.len() == 1 {
        assert(part =~= seq![part[0]]);
        lemma_absorb_one(step, before, part[0]);
    }
}

/// Taking in one run of fields and then another, where both succeed, is
/// taking in the joined run.
pub proof fn lemma_absorb_append<R>(
    step: Step<R>,
    start: R,
    first: Seq<Field>,
    second: Seq<Field>,
    mid: R,
    end: R,
)
    requires
        absorb(step, start, first) == Ok::<R, DecodeError>(mid),
        absorb(step, mid, second) == Ok::<R, DecodeError>(end),
    ensures
        absorb(step, start, first + second) == Ok::<R, DecodeError>(end),
{
    lemma_absorb_concat(step, start, first, second);
}

/// A field that the step passes over, whatever the record, can stand
/// anywhere among the fields without a change to what is read.
pub proof fn lemma_absorb_passes_over<R>(
    step: Step<R>,
    start: R,
    before: Seq<Field>,
    unknown: Field,
    after: Seq<Field>,
)
    requires
        forall|r: R| #[trigger] step(r, unknown) == Ok::<R, DecodeError>(r),
    ensures
        absorb(step, start, before + seq![unknown] + after) == absorb(step, start, before + after),
{
    lemma_absorb_concat(step, start, before + seq![unknown], after);
    lemma_absorb_concat(step, start, before, seq![unknown]);
    lemma_absorb_concat(step, start, before, after);
    match absorb(step, start, before) {
        Ok(mid) => {
            lemma_absorb_one(step, mid, unknown);
        },
        Err(_) => {},
    }
}

} // verus!
