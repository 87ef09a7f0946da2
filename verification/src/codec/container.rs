//! The binary form of a whole recording.
//!
//! A recording is written as a signature, the version of the format, the
//! header, the number of frames, and the frames in capture order. The header
//! and each frame stand in a block: a length in eight bytes, then that many
//! bytes. Nothing may follow the last frame.

use crate::codec::frame::{
    decode_frame, encode_frame, frame_bytes, frame_from_bytes, lemma_frame_roundtrip,
};
use crate::codec::header::{
    decode_header, encode_header, header_bytes, header_encodable, header_from_bytes,
    header_refusal,
};
use crate::error::{DecodeError, EncodeError};
use crate::recording::{frame_views, KRec, KRecView};
use crate::schema::{KRecFrame, KRecFrameView};
use crate::wire::{
    block, find_block, get_le, le_bytes, le_value, lemma_le_bytes_len, lemma_le_value_bound,
    lemma_radix_pow_values, lemma_take_block, lemma_take_block_cut, put_block, put_le,
    take_block,
};
use vstd::prelude::*;

verus! {

/// The version of the format that this library writes, and the only one that
/// it reads.
pub const VERSION: u16 = 1;

/// The signature that every recording starts with: the letters KREC.
pub open spec fn magic() -> Seq<u8> {
    seq![0x4Bu8, 0x52u8, 0x45u8, 0x43u8]
}

/// The bytes of the frames: one block for each, in capture order.
pub open spec fn frames_bytes(frames: Seq<KRecFrameView>) -> Seq<u8>
    decreases frames.len(),
{
    if frames.len() == 0 {
        Seq::empty()
    } else {
        block(frame_bytes(frames[0])) + frames_bytes(frames.skip(1))
    }
}

/// The bytes of a recording.
pub open spec fn recording_bytes(r: KRecView) -> Seq<u8> {
    magic() + le_bytes(VERSION as nat, 2) + block(header_bytes(r.header)) + le_bytes(
        r.frames.len(),
        8,
    ) + frames_bytes(r.frames)
}

/// The `count` frames that `bytes` hold, block after block, with nothing
/// after the last.
pub open spec fn frames_from_bytes(bytes: Seq<u8>, count: nat) -> Result<
    Seq<KRecFrameView>,
    DecodeError,
>
    decreases count,
{
    if count == 0 {
        if bytes.len() == 0 {
            Ok(Seq::empty())
        } else {
            Err(DecodeError::TrailingBytes)
        }
    } else {
        match take_block(bytes) {
            None => Err(DecodeError::Truncated),
            Some((body, rest)) => match frame_from_bytes(body) {
                Err(e) => Err(e),
                Ok(frame) => match frames_from_bytes(rest, (count - 1) as nat) {
                    Ok(frames) => Ok(seq![frame] + frames),
                    Err(e) => Err(e),
                },
            },
        }
    }
}

/// What follows the header in a recording: the number of frames, then the
/// frames.
pub open spec fn counted_frames_from_bytes(bytes: Seq<u8>) -> Result<
    Seq<KRecFrameView>,
    DecodeError,
> {
    if bytes.len() < 8 {
        Err(DecodeError::Truncated)
    } else {
        frames_from_bytes(bytes.skip(8), le_value(bytes.subrange(0, 8)))
    }
}

/// The recording that bytes hold, or the first reason, in reading order, for
/// which they hold none.
pub open spec fn recording_from_bytes(bytes: Seq<u8>) -> Result<KRecView, DecodeError> {
    if bytes.len() < 4 {
        Err(DecodeError::Truncated)
    } else if bytes.subrange(0, 4) != magic() {
        Err(DecodeError::BadMagic)
    } else if bytes.len() < 6 {
        Err(DecodeError::Truncated)
    } else if le_value(bytes.subrange(4, 6)) != VERSION {
        Err(DecodeError::UnsupportedVersion { found: le_value(bytes.subrange(4, 6)) as u16 })
    } else {
        match take_block(bytes.skip(6)) {
            None => Err(DecodeError::Truncated),
            Some((body, rest)) => match header_from_bytes(body) {
                Err(e) => Err(e),
                Ok(header) => match counted_frames_from_bytes(rest) {
                    Ok(frames) => Ok(KRecView { header, frames }),
                    Err(e) => Err(e),
                },
            },
        }
    }
}

/// The bytes of every frame can be counted in eight bytes.
pub open spec fn frames_sized(frames: Seq<KRecFrameView>) -> bool {
    forall|i: int| 0 <= i < frames.len() ==> frame_bytes(#[trigger] frames[i]).len() <= u64::MAX
}

/// A recording that can be written: its header can, and the size of the
/// header, the number of frames and the size of each frame can be counted in
/// eight bytes, as they always can for a recording held in memory.
pub open spec fn recording_encodable(r: KRecView) -> bool {
    &&& header_encodable(r.header)
    &&& header_bytes(r.header).len() <= u64::MAX
    &&& r.frames.len() <= u64::MAX
    &&& frames_sized(r.frames)
}

/// Frames are read back from their bytes, in their order.
pub proof fn lemma_frames_roundtrip(frames: Seq<KRecFrameView>)
    requires
        frames_sized(frames),
    ensures
        frames_from_bytes(frames_bytes(frames), frames.len()) == Ok::<
            Seq<KRecFrameView>,
            DecodeError,
        >(frames),
    decreases frames.len(),
{
    if frames.len() > 0 {
        let rest = frames.skip(1);
        assert(frames_sized(rest)) by {
            assert forall|i: int| 0 <= i < rest.len() implies frame_bytes(#[trigger] rest[i]).len()
                <= u64::MAX by {
                assert(rest[i] == frames[i + 1]);
            }
        }
        lemma_frames_roundtrip(rest);
        lemma_take_block(frame_bytes(frames[0]), frames_bytes(rest));
        lemma_frame_roundtrip(frames[0]);
        assert(seq![frames[0]] + rest =~= frames);
    } else {
        assert(frames =~= Seq::<KRecFrameView>::empty());
    }
}

/// The bytes of frames, cut short, are refused as truncated.
pub proof fn lemma_frames_cut(frames: Seq<KRecFrameView>, keep: int)
    requires
        frames_sized(frames),
        0 <= keep < frames_bytes(frames).len(),
    ensures
        frames_from_bytes(frames_bytes(frames).take(keep), frames.len()) == Err::<
            Seq<KRecFrameView>,
            DecodeError,
        >(DecodeError::Truncated),
    decreases frames.len(),
{
    if frames.len() > 0 {
        let rest = frames.skip(1);
        let body = frame_bytes(frames[0]);
        assert(frames_sized(rest)) by {
            assert forall|i: int| 0 <= i < rest.len() implies frame_bytes(#[trigger] rest[i]).len()
                <= u64::MAX by {
                assert(rest[i] == frames[i + 1]);
            }
        }
        lemma_le_bytes_len(body.len(), 8);
        lemma_take_block_cut(body, frames_bytes(rest), keep);
        if keep >= 8 + body.len() {
            lemma_frame_roundtrip(frames[0]);
            lemma_frames_cut(rest, keep - 8 - body.len());
        }
    }
}

/// The bytes of frames with one more frame at their end.
pub proof fn lemma_frames_bytes_push(frames: Seq<KRecFrameView>, frame: KRecFrameView)
    ensures
        frames_bytes(frames.push(frame)) == frames_bytes(frames) + block(frame_bytes(frame)),
    decreases frames.len(),
{
    let more = frames.push(frame);
    if frames.len() == 0 {
        assert(more.skip(1) =~= Seq::<KRecFrameView>::empty());
        assert(frames_bytes(more.skip(1)) =~= Seq::<u8>::empty());
        assert(frames_bytes(more) =~= block(frame_bytes(frame)));
        assert(frames_bytes(frames) + block(frame_bytes(frame)) =~= block(frame_bytes(frame)));
    } else {
        lemma_frames_bytes_push(frames.skip(1), frame);
        assert(more.skip(1) =~= frames.skip(1).push(frame));
        assert(more[0] == frames[0]);
        assert(block(frame_bytes(frames[0])) + (frames_bytes(frames.skip(1)) + block(
            frame_bytes(frame),
        )) =~= (block(frame_bytes(frames[0])) + frames_bytes(frames.skip(1))) + block(
            frame_bytes(frame),
        ));
    }
}

impl KRec {
    /// Writes the recording, or refuses it where its header cannot be
    /// written.
    pub fn to_bytes(&self) -> (r: Result<Vec<u8>, EncodeError>)
        ensures
            r is Ok <==> header_encodable(self@.header),
            match r {
                Ok(bytes) => recording_encodable(self@) && bytes@ == recording_bytes(self@),
                Err(e) => header_refusal(self@.header) == Some(e),
            },
    {
        let header = match encode_header(self.header()) {
            Ok(header) => header,
            Err(e) => {
                return Err(e);
            },
        };
        let header_size: usize = header.len();
        let all = self.frames();
        let count: usize = all.len();
        let mut bytes: Vec<u8> = Vec::new();
        bytes.push(0x4B);
        bytes.push(0x52);
        bytes.push(0x45);
        bytes.push(0x43);
        put_le(&mut bytes, VERSION as u64, 2);
        put_block(&mut bytes, header.as_slice());
        put_le(&mut bytes, count as u64, 8);
        let ghost frames = self@.frames;
        let ghost front = magic() + le_bytes(VERSION as nat, 2) + block(header_bytes(self@.header))
            + le_bytes(frames.len(), 8);
        proof {
            assert(bytes@ =~= front);
            assert(frames.take(0) =~= Seq::<KRecFrameView>::empty());
            assert(front + frames_bytes(frames.take(0)) =~= front);
        }
        let mut i: usize = 0;
        while i < all.len()
            invariant
                i <= all@.len(),
                frames == frame_views(all@),
                frames_sized(frames.take(i as int)),
                bytes@ == front + frames_bytes(frames.take(i as int)),
            decreases all@.len() - i,
        {
            let ghost done = frames.take(i as int);
            let body = encode_frame(&all[i]);
            let size: usize = body.len();
            put_block(&mut bytes, body.as_slice());
            i = i + 1;
            proof {
                let more = frames.take(i as int);
                assert(more =~= done.push(frames[i - 1]));
                lemma_frames_bytes_push(done, frames[i - 1]);
                assert(bytes@ =~= front + (frames_bytes(done) + block(frame_bytes(frames[i - 1]))));
                assert(frames_sized(more)) by {
                    assert forall|j: int| 0 <= j < more.len() implies frame_bytes(
                        #[trigger] more[j],
                    ).len() <= u64::MAX by {
                        if j < i - 1 {
                            assert(more[j] == done[j]);
                        } else {
                            assert(more[j] == all@[i - 1]@);
                            assert(frame_bytes(more[j]).len() == size);
                        }
                    }
                }
            }
        }
        proof {
            assert(frames.take(i as int) =~= frames);
            assert(header_bytes(self@.header).len() == header_size);
            assert(frames.len() == count);
        }
        Ok(bytes)
    }

    /// Reads a recording, or says for which reason, the first in reading
    /// order, the bytes hold none.
    pub fn from_bytes(bytes: &[u8]) -> (r: Result<KRec, DecodeError>)
        ensures
            match r {
                Ok(recording) => recording_from_bytes(bytes@) == Ok::<KRecView, DecodeError>(
                    recording@,
                ),
                Err(e) => recording_from_bytes(bytes@) == Err::<KRecView, DecodeError>(e),
            },
    {
        let total: usize = bytes.len();
        if total < 4 {
            return Err(DecodeError::Truncated);
        }
        proof {
            let sign = bytes@.subrange(0, 4);
            assert(sign[0] == bytes@[0] && sign[1] == bytes@[1] && sign[2] == bytes@[2] && sign[3]
                == bytes@[3]);
            assert(magic()[0] == 0x4B && magic()[1] == 0x52 && magic()[2] == 0x45 && magic()[3]
                == 0x43);
            if bytes@[0] == 0x4B && bytes@[1] == 0x52 && bytes@[2] == 0x45 && bytes@[3] == 0x43 {
                assert(sign =~= magic());
            }
        }
        if bytes[0] != 0x4B || bytes[1] != 0x52 || bytes[2] != 0x45 || bytes[3] != 0x43 {
            return Err(DecodeError::BadMagic);
        }
        if total < 6 {
            return Err(DecodeError::Truncated);
        }
        let version = get_le(bytes, 4, 2);
        proof {
            lemma_le_value_bound(bytes@.subrange(4, 6));
            lemma_radix_pow_values();
        }
        if version != VERSION as u64 {
            return Err(DecodeError::UnsupportedVersion { found: version as u16 });
        }
        let (start, end) = match find_block(bytes, 6) {
            Some(found) => found,
            None => {
                return Err(DecodeError::Truncated);
            },
        };
        let header = match decode_header(vstd::slice::slice_subrange(bytes, start, end)) {
            Ok(header) => header,
            Err(e) => {
                return Err(e);
            },
        };
        let ghost rest = bytes@.skip(end as int);
        if total - end < 8 {
            return Err(DecodeError::Truncated);
        }
        let count: u64 = get_le(bytes, end, 8);
        proof {
            assert(rest.subrange(0, 8) =~= bytes@.subrange(end as int, end + 8));
            assert(rest.skip(8) =~= bytes@.skip(end + 8));
        }
        let mut frames: Vec<KRecFrame> = Vec::new();
        let mut at: usize = end + 8;
        let mut i: u64 = 0;
        let ghost first = at;
        let ghost head = header@;
        proof {
            assert(recording_from_bytes(bytes@) == match frames_from_bytes(
                bytes@.skip(first as int),
                count as nat,
            ) {
                Ok(found) => Ok::<KRecView, DecodeError>(KRecView { header: head, frames: found }),
                Err(e) => Err(e),
            });
            assert(frame_views(frames@) =~= Seq::<KRecFrameView>::empty());
            assert(forall|more: Seq<KRecFrameView>| Seq::<KRecFrameView>::empty() + more =~= more);
        }
        while i < count
            invariant
                i <= count,
                at <= total,
                total == bytes@.len(),
                recording_from_bytes(bytes@) == match frames_from_bytes(
                    bytes@.skip(first as int),
                    count as nat,
                ) {
                    Ok(found) => Ok::<KRecView, DecodeError>(
                        KRecView { header: head, frames: found },
                    ),
                    Err(e) => Err(e),
                },
                frames_from_bytes(bytes@.skip(first as int), count as nat) == match frames_from_bytes(
                    bytes@.skip(at as int),
                    (count - i) as nat,
                ) {
                    Ok(more) => Ok(frame_views(frames@) + more),
                    Err(e) => Err(e),
                },
            decreases count - i,
        {
            let (start, end) = match find_block(bytes, at) {
                Some(found) => found,
                None => {
                    return Err(DecodeError::Truncated);
                },
            };
            let frame = match decode_frame(vstd::slice::slice_subrange(bytes, start, end)) {
                Ok(frame) => frame,
                Err(e) => {
                    return Err(e);
                },
            };
            proof {
                let before = frame_views(frames@);
                let after = frame_views(frames@.push(frame));
                assert(after =~= before.push(frame@));
                assert forall|more: Seq<KRecFrameView>| before + (seq![frame@] + more) == after
                    + more by {
                    assert(before + (seq![frame@] + more) =~= after + more);
                }
            }
            frames.push(frame);
            at = end;
            i = i + 1;
        }
        if at != total {
            return Err(DecodeError::TrailingBytes);
        }
        proof {
            assert(bytes@.skip(at as int) =~= Seq::<u8>::empty());
            assert(frame_views(frames@) + Seq::<KRecFrameView>::empty() =~= frame_views(frames@));
        }
        Ok(KRec::from_parts(header, frames))
    }
}

} // verus!
