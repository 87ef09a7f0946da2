//! The byte-level building blocks of the format: little-endian integers,
//! tagged fields with a length in two bytes, and blocks with a length in
//! eight.

use vstd::prelude::*;

verus! {

/// 256 to the power `width`: the number of values that `width` bytes can hold.
pub open spec fn radix_pow(width: nat) -> nat
    decreases width,
{
    if width == 0 {
        1
    } else {
        256 * radix_pow((width - 1) as nat)
    }
}

/// The `width` low-order bytes of `value`, least significant first.
pub open spec fn le_bytes(value: nat, width: nat) -> Seq<u8>
    decreases width,
{
    if width == 0 {
        Seq::empty()
    } else {
        seq![(value % 256) as u8] + le_bytes(value / 256, (width - 1) as nat)
    }
}

/// The number that `bytes` spell, least significant byte first.
pub open spec fn le_value(bytes: Seq<u8>) -> nat
    decreases bytes.len(),
{
    if bytes.len() == 0 {
        0
    } else {
        bytes[0] as nat + 256 * le_value(bytes.skip(1))
    }
}

/// `le_bytes` yields exactly `width` bytes.
pub proof fn lemma_le_bytes_len(value: nat, width: nat)
    ensures
        le_bytes(value, width).len() == width,
    decreases width,
{
    if width > 0 {
        lemma_le_bytes_len(value / 256, (width - 1) as nat);
    }
}

/// A number that fits in `width` bytes is read back from them unchanged.
pub proof fn lemma_le_roundtrip(value: nat, width: nat)
    requires
        value < radix_pow(width),
    ensures
        le_value(le_bytes(value, width)) == value,
    decreases width,
{
    if width > 0 {
        let rest = le_bytes(value / 256, (width - 1) as nat);
        let all = le_bytes(value, width);
        lemma_le_roundtrip(value / 256, (width - 1) as nat);
        assert(all.skip(1) =~= rest);
        assert(all[0] == (value % 256) as u8);
    }
}

/// What `bytes` spell is below 256 to the power of their count.
pub proof fn lemma_le_value_bound(bytes: Seq<u8>)
    ensures
        le_value(bytes) < radix_pow(bytes.len()),
    decreases bytes.len(),
{
    if bytes.len() > 0 {
        lemma_le_value_bound(bytes.skip(1));
    }
}

/// The powers of 256 up to the eighth, which bound `u16`, `u32` and `u64`.
pub proof fn lemma_radix_pow_values()
    ensures
        radix_pow(0) == 1,
        radix_pow(1) == 0x100,
        radix_pow(2) == 0x1_0000,
        radix_pow(3) == 0x100_0000,
        radix_pow(4) == 0x1_0000_0000,
        radix_pow(5) == 0x100_0000_0000,
        radix_pow(6) == 0x1_0000_0000_0000,
        radix_pow(7) == 0x100_0000_0000_0000,
        radix_pow(8) == 0x1_0000_0000_0000_0000,
{
    reveal_with_fuel(radix_pow, 9);
}

/// Appends the `width` low-order bytes of `value` to `out`, least significant
/// first.
pub fn put_le(out: &mut Vec<u8>, value: u64, width: usize)
    ensures
        final(out)@ == old(out)@ + le_bytes(value as nat, width as nat),
{
    let mut rest: u64 = value;
    let mut done: usize = 0;
    while done < width
        invariant
            done <= width,
            out@ + le_bytes(rest as nat, (width - done) as nat) == old(out)@ + le_bytes(
                value as nat,
                width as nat,
            ),
        decreases width - done,
    {
        let ghost before = out@;
        let ghost tail = le_bytes((rest / 256) as nat, (width - done - 1) as nat);
        out.push((rest % 256) as u8);
        proof {
            assert(le_bytes(rest as nat, (width - done) as nat) == seq![(rest % 256) as u8] + tail);
            assert(out@ + tail =~= before + (seq![(rest % 256) as u8] + tail));
        }
        rest = rest / 256;
        done = done + 1;
    }
    proof {
        assert(le_bytes(rest as nat, 0) =~= Seq::<u8>::empty());
        assert(out@ + Seq::<u8>::empty() =~= out@);
    }
}

/// Reads the `width` bytes of `bytes` that start at `at` as one number, least
/// significant byte first.
pub(crate) fn get_le(bytes: &[u8], at: usize, width: usize) -> (value: u64)
    requires
        width <= 8,
        at + width <= bytes@.len(),
    ensures
        value as nat == le_value(bytes@.subrange(at as int, at + width)),
{
    let total: usize = bytes.len();
    let mut value: u64 = 0;
    let mut left: usize = width;
    while left > 0
        invariant
            left <= width <= 8,
            at + width <= total,
            total == bytes@.len(),
            value as nat == le_value(bytes@.subrange(at + left, at + width)),
        decreases left,
    {
        let ghost seen = bytes@.subrange(at + left, at + width);
        let ghost next = bytes@.subrange(at + left - 1, at + width);
        proof {
            lemma_le_value_bound(seen);
            lemma_radix_pow_values();
            assert(next.skip(1) =~= seen);
            assert(next[0] == bytes@[at + left - 1]);
            assert(seen.len() <= 7);
            assert(radix_pow(seen.len()) <= radix_pow(7)) by {
                reveal_with_fuel(radix_pow, 9);
            }
        }
        left = left - 1;
        value = value * 256 + bytes[at + left] as u64;
    }
    value
}

/// Appends the bytes of `more` to `out`.
pub fn put_bytes(out: &mut Vec<u8>, more: &[u8])
    ensures
        final(out)@ == old(out)@ + more@,
{
    let mut i: usize = 0;
    while i < more.len()
        invariant
            i <= more@.len(),
            out@ == old(out)@ + more@.take(i as int),
        decreases more@.len() - i,
    {
        out.push(more[i]);
        i = i + 1;
        proof {
            assert(more@.take(i as int) =~= more@.take(i - 1).push(more@[i - 1]));
        }
    }
    proof {
        assert(more@.take(more@.len() as int) =~= more@);
    }
}

/// The largest payload that a field can carry, in bytes.
pub const MAX_PAYLOAD: usize = 65535;

/// A field as it stands in a record: a tag that says which member it is, and
/// the bytes of that member.
pub struct Field {
    pub tag: u8,
    pub payload: Seq<u8>,
}

/// The bytes of one field: its tag, the length of its payload in two bytes,
/// and the payload.
pub open spec fn field_bytes(field: Field) -> Seq<u8> {
    seq![field.tag] + le_bytes(field.payload.len(), 2) + field.payload
}

/// The bytes of a run of fields, one after the other.
pub open spec fn fields_bytes(fields: Seq<Field>) -> Seq<u8>
    decreases fields.len(),
{
    if fields.len() == 0 {
        Seq::empty()
    } else {
        field_bytes(fields[0]) + fields_bytes(fields.skip(1))
    }
}

/// Every payload is short enough for its two-byte length.
pub open spec fn fields_fit(fields: Seq<Field>) -> bool {
    forall|i: int| 0 <= i < fields.len() ==> (#[trigger] fields[i]).payload.len() <= MAX_PAYLOAD
}

/// Splits the bytes of a record into its fields; `None` where the bytes end
/// inside a field.
pub open spec fn parse_fields(bytes: Seq<u8>) -> Option<Seq<Field>>
    decreases bytes.len(),
{
    if bytes.len() == 0 {
        Some(Seq::empty())
    } else if bytes.len() < 3 {
        None
    } else {
        let size = le_value(bytes.subrange(1, 3)) as int;
        if bytes.len() < 3 + size {
            None
        } else {
            match parse_fields(bytes.skip(3 + size)) {
                Some(rest) => Some(
                    seq![Field { tag: bytes[0], payload: bytes.subrange(3, 3 + size) }] + rest,
                ),
                None => None,
            }
        }
    }
}

/// A field takes three bytes more than its payload.
pub proof fn lemma_field_bytes_len(field: Field)
    ensures
        field_bytes(field).len() == 3 + field.payload.len(),
{
    lemma_le_bytes_len(field.payload.len(), 2);
}

/// The bytes of two runs of fields, joined, are the bytes of the joined run.
pub proof fn lemma_fields_bytes_concat(first: Seq<Field>, second: Seq<Field>)
    ensures
        fields_bytes(first + second) == fields_bytes(first) + fields_bytes(second),
    decreases first.len(),
{
    if first.len() == 0 {
        assert(first + second =~= second);
        assert(fields_bytes(first) + fields_bytes(second) =~= fields_bytes(second));
    } else {
        lemma_fields_bytes_concat(first.skip(1), second);
        assert((first + second).skip(1) =~= first.skip(1) + second);
        assert((first + second)[0] == first[0]);
        assert(field_bytes(first[0]) + (fields_bytes(first.skip(1)) + fields_bytes(second))
            =~= (field_bytes(first[0]) + fields_bytes(first.skip(1))) + fields_bytes(second));
    }
}

/// The bytes of a single field, taken as a run.
pub proof fn lemma_fields_bytes_single(field: Field)
    ensures
        fields_bytes(seq![field]) == field_bytes(field),
{
    let one = seq![field];
    assert(one.skip(1) =~= Seq::<Field>::empty());
    assert(fields_bytes(one.skip(1)) =~= Seq::<u8>::empty());
    assert(field_bytes(field) + Seq::<u8>::empty() =~= field_bytes(field));
}

/// The bytes of a run with one more field at its end.
pub proof fn lemma_fields_bytes_push(fields: Seq<Field>, field: Field)
    ensures
        fields_bytes(fields + seq![field]) == fields_bytes(fields) + field_bytes(field),
        fields_bytes(fields + seq![field]).len() == fields_bytes(fields).len() + 3
            + field.payload.len(),
{
    lemma_fields_bytes_concat(fields, seq![field]);
    lemma_fields_bytes_single(field);
    lemma_field_bytes_len(field);
}

/// A joined run fits where both runs do.
pub proof fn lemma_fields_fit_concat(first: Seq<Field>, second: Seq<Field>)
    ensures
        fields_fit(first + second) <==> fields_fit(first) && fields_fit(second),
{
    let joined = first + second;
    if fields_fit(first) && fields_fit(second) {
        assert forall|i: int| 0 <= i < joined.len() implies (#[trigger] joined[i]).payload.len()
            <= MAX_PAYLOAD by {
            if i < first.len() {
                assert(joined[i] == first[i]);
            } else {
                assert(joined[i] == second[i - first.len()]);
            }
        }
    }
    if fields_fit(joined) {
        assert forall|i: int| 0 <= i < first.len() implies (#[trigger] first[i]).payload.len()
            <= MAX_PAYLOAD by {
            assert(joined[i] == first[i]);
        }
        assert forall|i: int| 0 <= i < second.len() implies (#[trigger] second[i]).payload.len()
            <= MAX_PAYLOAD by {
            assert(joined[i + first.len()] == second[i]);
        }
    }
}

/// Fields whose payloads fit are split off again exactly as they were written.
pub proof fn lemma_parse_fields_roundtrip(fields: Seq<Field>)
    requires
        fields_fit(fields),
    ensures
        parse_fields(fields_bytes(fields)) == Some(fields),
    decreases fields.len(),
{
    if fields.len() > 0 {
        let head = fields[0];
        let rest = fields.skip(1);
        let size = head.payload.len() as int;
        let bytes = fields_bytes(fields);
        assert(fields_fit(rest)) by {
            assert forall|i: int| 0 <= i < rest.len() implies (#[trigger] rest[i]).payload.len()
                <= MAX_PAYLOAD by {
                assert(rest[i] == fields[i + 1]);
            }
        }
        lemma_parse_fields_roundtrip(rest);
        lemma_le_bytes_len(size as nat, 2);
        lemma_radix_pow_values();
        lemma_le_roundtrip(size as nat, 2);
        assert(bytes == field_bytes(head) + fields_bytes(rest));
        assert(bytes.subrange(1, 3) =~= le_bytes(size as nat, 2));
        assert(bytes.subrange(3, 3 + size) =~= head.payload);
        assert(bytes.skip(3 + size) =~= fields_bytes(rest));
        assert(bytes[0] == head.tag);
        assert(seq![head] + rest =~= fields);
    }
}

/// A field as it is found in a byte buffer: its tag, and its payload as a
/// slice of that buffer.
pub struct RawField<'a> {
    pub tag: u8,
    pub payload: &'a [u8],
}

impl<'a> View for RawField<'a> {
    type V = Field;

    open spec fn view(&self) -> Field {
        Field { tag: self.tag, payload: self.payload@ }
    }
}

/// The fields that a run of raw fields stands for.
pub open spec fn raw_views(raw: Seq<RawField<'_>>) -> Seq<Field> {
    Seq::new(raw.len(), |i: int| raw[i]@)
}

/// Appends one field to `out` if its payload fits, and says whether it did.
pub fn put_field(out: &mut Vec<u8>, tag: u8, payload: &[u8]) -> (fits: bool)
    ensures
        fits == (payload@.len() <= MAX_PAYLOAD),
        fits ==> final(out)@ == old(out)@ + field_bytes(Field { tag, payload: payload@ }),
        !fits ==> final(out)@ == old(out)@,
{
    let size: usize = payload.len();
    if size > MAX_PAYLOAD {
        return false;
    }
    out.push(tag);
    put_le(out, size as u64, 2);
    put_bytes(out, payload);
    proof {
        assert(out@ =~= old(out)@ + (seq![tag] + le_bytes(size as nat, 2) + payload@));
    }
    true
}

/// Splits the bytes of a record into its fields; `None` where the bytes end
/// inside a field.
pub fn split_fields<'a>(bytes: &'a [u8]) -> (fields: Option<Vec<RawField<'a>>>)
    ensures
        match fields {
            Some(raw) => parse_fields(bytes@) == Some(raw_views(raw@)),
            None => parse_fields(bytes@) is None,
        },
{
    let total: usize = bytes.len();
    let mut found: Vec<RawField<'a>> = Vec::new();
    let mut at: usize = 0;
    proof {
        assert(bytes@.skip(0) =~= bytes@);
        assert(raw_views(found@) =~= Seq::<Field>::empty());
        assert(forall|rest: Seq<Field>| Seq::<Field>::empty() + rest =~= rest);
    }
    while at < total
        invariant
            at <= total,
            total == bytes@.len(),
            parse_fields(bytes@) == match parse_fields(bytes@.skip(at as int)) {
                Some(rest) => Some(raw_views(found@) + rest),
                None => None,
            },
        decreases total - at,
    {
        let ghost here = bytes@.skip(at as int);
        if total - at < 3 {
            return None;
        }
        proof {
            assert(here.subrange(1, 3) =~= bytes@.subrange(at + 1, at + 1 + 2));
        }
        let size: usize = get_le(bytes, at + 1, 2) as usize;
        proof {
            lemma_le_value_bound(here.subrange(1, 3));
            lemma_radix_pow_values();
        }
        if total - at - 3 < size {
            return None;
        }
        let payload = vstd::slice::slice_subrange(bytes, at + 3, at + 3 + size);
        let field = RawField { tag: bytes[at], payload };
        proof {
            assert(here.subrange(3, 3 + size) =~= payload@);
            assert(here[0] == bytes@[at as int]);
            assert(here.skip(3 + size) =~= bytes@.skip(at + 3 + size));
            let ghost before = raw_views(found@);
            let ghost after = raw_views(found@.push(field));
            assert(after =~= before + seq![field@]);
            assert forall|rest: Seq<Field>| before + (seq![field@] + rest) == after + rest by {
                assert(before + (seq![field@] + rest) =~= after + rest);
            }
        }
        found.push(field);
        at = at + 3 + size;
    }
    proof {
        assert(bytes@.skip(at as int) =~= Seq::<u8>::empty());
        assert(raw_views(found@) + Seq::<Field>::empty() =~= raw_views(found@));
    }
    Some(found)
}

/// A block: the length of `body` in eight bytes, then `body`.
pub open spec fn block(body: Seq<u8>) -> Seq<u8> {
    le_bytes(body.len(), 8) + body
}

/// The block that `bytes` start with and what follows it; `None` where the
/// bytes end before the block does.
pub open spec fn take_block(bytes: Seq<u8>) -> Option<(Seq<u8>, Seq<u8>)> {
    if bytes.len() < 8 {
        None
    } else {
        let size = le_value(bytes.subrange(0, 8)) as int;
        if bytes.len() - 8 < size {
            None
        } else {
            Some((bytes.subrange(8, 8 + size), bytes.skip(8 + size)))
        }
    }
}

/// A block is taken off the front of what it was put in front of.
pub proof fn lemma_take_block(body: Seq<u8>, tail: Seq<u8>)
    requires
        body.len() <= u64::MAX,
    ensures
        take_block(block(body) + tail) == Some((body, tail)),
{
    let bytes = block(body) + tail;
    lemma_le_bytes_len(body.len(), 8);
    lemma_radix_pow_values();
    lemma_le_roundtrip(body.len(), 8);
    assert(bytes.subrange(0, 8) =~= le_bytes(body.len(), 8));
    assert(bytes.subrange(8, 8 + body.len() as int) =~= body);
    assert(bytes.skip(8 + body.len() as int) =~= tail);
}

/// Of a block and what follows it, cut short: no block can be taken where
/// the cut falls inside the block, and the whole block where it falls behind.
pub proof fn lemma_take_block_cut(body: Seq<u8>, tail: Seq<u8>, keep: int)
    requires
        body.len() <= u64::MAX,
        0 <= keep <= (block(body) + tail).len(),
    ensures
        keep < 8 + body.len() ==> take_block((block(body) + tail).take(keep)) is None,
        keep >= 8 + body.len() ==> take_block((block(body) + tail).take(keep)) == Some(
            (body, tail.take(keep - 8 - body.len())),
        ),
{
    let bytes = block(body) + tail;
    let cut = bytes.take(keep);
    lemma_le_bytes_len(body.len(), 8);
    lemma_radix_pow_values();
    lemma_le_roundtrip(body.len(), 8);
    if keep >= 8 {
        assert(cut.subrange(0, 8) =~= le_bytes(body.len(), 8));
        if keep >= 8 + body.len() {
            assert(cut.subrange(8, 8 + body.len() as int) =~= body);
            assert(cut.skip(8 + body.len() as int) =~= tail.take(keep - 8 - body.len()));
        }
    }
}

/// Appends a block.
pub fn put_block(out: &mut Vec<u8>, body: &[u8])
    ensures
        final(out)@ == old(out)@ + block(body@),
{
    put_le(out, body.len() as u64, 8);
    put_bytes(out, body);
    proof {
        assert(out@ =~= old(out)@ + (le_bytes(body@.len(), 8) + body@));
    }
}

/// Finds the block that starts at `at`: where its body starts and where it
/// ends. There is none where `at` lies behind the bytes.
pub fn find_block(bytes: &[u8], at: usize) -> (r: Option<(usize, usize)>)
    ensures
        at > bytes@.len() ==> r is None,
        at <= bytes@.len() ==> match r {
            Some((start, end)) => {
                &&& start == at + 8
                &&& start <= end <= bytes@.len()
                &&& take_block(bytes@.skip(at as int)) == Some(
                    (bytes@.subrange(start as int, end as int), bytes@.skip(end as int)),
                )
            },
            None => take_block(bytes@.skip(at as int)) is None,
        },
{
    let total: usize = bytes.len();
    let ghost here = bytes@.skip(at as int);
    if at > total || total - at < 8 {
        return None;
    }
    let size: u64 = get_le(bytes, at, 8);
    proof {
        assert(here.subrange(0, 8) =~= bytes@.subrange(at as int, at + 8));
    }
    let left: usize = total - at - 8;
    if size > left as u64 {
        return None;
    }
    let start: usize = at + 8;
    let end: usize = start + size as usize;
    proof {
        assert(here.subrange(8, 8 + size) =~= bytes@.subrange(start as int, end as int));
        assert(here.skip(8 + size) =~= bytes@.skip(end as int));
    }
    Some((start, end))
}

} // verus!
