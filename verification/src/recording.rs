//! The recording: one header and the frames captured under it, in capture
//! order.

use crate::schema::{KRecFrame, KRecFrameView, KRecHeader, KRecHeaderView};
use vstd::prelude::*;

verus! {

/// A recording. Its frames are only ever added at the end: none is removed,
/// none is inserted, and their order never changes. Its header stays as it
/// is unless it is replaced as a whole.
#[derive(Clone, Debug, PartialEq, Eq)]
pub struct KRec {
    header: KRecHeader,
    frames: Vec<KRecFrame>,
}

/// A recording as a mathematical value.
pub struct KRecView {
    pub header: KRecHeaderView,
    pub frames: Seq<KRecFrameView>,
}

/// The frames of a list as mathematical values.
pub open spec fn frame_views(frames: Seq<KRecFrame>) -> Seq<KRecFrameView> {
    Seq::new(frames.len(), |i: int| frames[i]@)
}

impl View for KRec {
    type V = KRecView;

    closed spec fn view(&self) -> KRecView {
        KRecView { header: self.header@, frames: frame_views(self.frames@) }
    }
}

/// Frames whose video timestamps and frame numbers never go down from one
/// frame to a later one. A recording is expected to keep its frames so, to
/// be replayed in a meaningful way; nothing enforces it.
pub open spec fn in_capture_order(frames: Seq<KRecFrameView>) -> bool {
    forall|i: int, j: int|
        0 <= i <= j < frames.len() ==> {
            &&& (#[trigger] frames[i]).video_timestamp <= (#[trigger] frames[j]).video_timestamp
            &&& frames[i].frame_number <= frames[j].frame_number
        }
}

/// A frame was asked for at a position that the recording does not have.
#[derive(Clone, Copy, Debug, PartialEq, Eq, Structural)]
pub struct FrameRangeError {
    /// The position that was asked for.
    pub index: usize,
    /// The number of frames in the recording.
    pub count: usize,
}

impl KRec {
    /// The recording with the given header and no frame. The header is taken
    /// as it is.
    pub fn new(header: KRecHeader) -> (recording: KRec)
        ensures
            recording@ == (KRecView { header: header@, frames: Seq::empty() }),
    {
        let recording = KRec { header, frames: Vec::new() };
        proof {
            assert(frame_views(recording.frames@) =~= Seq::<KRecFrameView>::empty());
        }
        recording
    }

    /// The recording with the given header and the given frames, in their
    /// order.
    pub fn from_parts(header: KRecHeader, frames: Vec<KRecFrame>) -> (recording: KRec)
        ensures
            recording@ == (KRecView { header: header@, frames: frame_views(frames@) }),
    {
        KRec { header, frames }
    }

    /// Puts another header in the place of the header, and hands back the
    /// header that was there. The frames stay as they are.
    pub fn replace_header(&mut self, header: KRecHeader) -> (replaced: KRecHeader)
        ensures
            replaced@ == old(self)@.header,
            final(self)@ == (KRecView { header: header@, frames: old(self)@.frames }),
    {
        let mut other = header;
        core::mem::swap(&mut self.header, &mut other);
        other
    }

    /// Adds a frame after all the frames of the recording. The frame is
    /// taken as it is: its counters are not compared with those before it.
    pub fn add_frame(&mut self, frame: KRecFrame)
        ensures
            final(self)@ == (KRecView {
                header: old(self)@.header,
                frames: old(self)@.frames.push(frame@),
            }),
    {
        self.frames.push(frame);
        proof {
            assert(frame_views(self.frames@) =~= frame_views(old(self).frames@).push(frame@));
        }
    }

    /// The number of frames.
    pub fn frame_count(&self) -> (count: usize)
        ensures
            count == self@.frames.len(),
    {
        self.frames.len()
    }

    /// The header.
    pub fn header(&self) -> (header: &KRecHeader)
        ensures
            header@ == self@.header,
    {
        &self.header
    }

    /// The frames, in capture order.
    pub fn frames(&self) -> (frames: &Vec<KRecFrame>)
        ensures
            frame_views(frames@) == self@.frames,
    {
        &self.frames
    }

    /// Whether the video timestamps and the frame numbers never go down from
    /// one frame to a later one.
    pub fn is_in_capture_order(&self) -> (ordered: bool)
        ensures
            ordered == in_capture_order(self@.frames),
    {
        let ghost frames = self@.frames;
        if self.frames.len() == 0 {
            return true;
        }
        let mut i: usize = 1;
        while i < self.frames.len()
            invariant
                1 <= i <= self.frames@.len(),
                frames == frame_views(self.frames@),
                in_capture_order(frames.take(i as int)),
            decreases self.frames@.len() - i,
        {
            let earlier = &self.frames[i - 1];
            let later = &self.frames[i];
            if earlier.video_timestamp > later.video_timestamp || earlier.frame_number
                > later.frame_number {
                proof {
                    assert(frames[i - 1] == earlier@);
                    assert(frames[i as int] == later@);
                }
                return false;
            }
            proof {
                let seen = frames.take(i as int);
                let more = frames.take(i + 1);
                assert forall|a: int, b: int| 0 <= a <= b < more.len() implies {
                    &&& (#[trigger] more[a]).video_timestamp <= (#[trigger] more[b]).video_timestamp
                    &&& more[a].frame_number <= more[b].frame_number
                } by {
                    if b < i {
                        assert(more[a] == seen[a] && more[b] == seen[b]);
                    } else if a < i {
                        assert(more[a] == seen[a]);
                        assert(more[i - 1] == seen[i - 1]);
                        assert(more[b] == later@);
                        assert(seen[i - 1] == earlier@);
                    }
                }
            }
            i = i + 1;
        }
        proof {
            assert(frames.take(i as int) =~= frames);
        }
        true
    }

    /// The frame at the given position, counted from zero in capture order.
    pub fn frame(&self, index: usize) -> (r: Result<&KRecFrame, FrameRangeError>)
        ensures
            index < self@.frames.len() ==> r is Ok && r->Ok_0@ == self@.frames[index as int],
            index >= self@.frames.len() ==> r == Err::<&KRecFrame, FrameRangeError>(
                FrameRangeError { index, count: self@.frames.len() as usize },
            ),
    {
        if index < self.frames.len() {
            Ok(&self.frames[index])
        } else {
            Err(FrameRangeError { index, count: self.frames.len() })
        }
    }
}

} // verus!
