use crate::mixer::MixerData;
use std::collections::VecDeque;
use vstd::prelude::*;

verus! {

/// The samples of a queue of chunks laid end to end, oldest chunk first.
pub open spec fn joined(chunks: Seq<MixerData>) -> Seq<i16>
    decreases chunks.len(),
{
    if chunks.len() == 0 {
        Seq::empty()
    } else {
        chunks[0].data@ + joined(chunks.skip(1))
    }
}

/// `n` zero-valued samples.
pub open spec fn silence(n: nat) -> Seq<i16> {
    Seq::new(n, |i: int| 0i16)
}

/// How many buffered samples a request for `k` samples consumes.
pub open spec fn taken(pending: Seq<i16>, k: nat) -> nat {
    if k <= pending.len() {
        k
    } else {
        pending.len()
    }
}

/// What a request for `k` samples yields from `pending`: nothing when no
/// buffered sample can be had, else the oldest samples followed by zeros up to
/// `k`.
pub open spec fn window(pending: Seq<i16>, k: nat) -> Option<Seq<i16>> {
    let n = taken(pending, k);
    if n == 0 {
        None
    } else {
        Some(pending.take(n as int) + silence((k - n) as nat))
    }
}

/// Appending a chunk to the queue appends its samples to the joined stream.
pub proof fn lemma_joined_push(chunks: Seq<MixerData>, chunk: MixerData)
    ensures
        joined(chunks.push(chunk)) == joined(chunks) + chunk.data@,
    decreases chunks.len(),
{
    if chunks.len() == 0 {
        assert(chunks.push(chunk).skip(1) =~= Seq::<MixerData>::empty());
        assert(joined(Seq::<MixerData>::empty()) =~= Seq::<i16>::empty());
        assert(joined(chunks.push(chunk)) =~= chunk.data@);
        assert(joined(chunks) + chunk.data@ =~= chunk.data@);
    } else {
        lemma_joined_push(chunks.skip(1), chunk);
        assert(chunks.push(chunk).skip(1) =~= chunks.skip(1).push(chunk));
        assert(joined(chunks.push(chunk)) =~= joined(chunks) + chunk.data@);
    }
}

/// A buffer that holds nothing yields silence, and still holds nothing
/// afterwards: a speaker that never sent data is silent at every request.
pub proof fn law_empty_buffer_is_silent(pending: Seq<i16>, k: nat)
    requires
        pending.len() == 0,
    ensures
        window(pending, k) is None,
        pending.skip(taken(pending, k) as int) == pending,
{
    assert(pending.skip(0) =~= pending);
}

/// A window is `k` samples long: the oldest buffered samples in their
/// order, then zeros. Where the buffer holds fewer than `k` samples, all of
/// them come first and the deficit is zero-filled at the tail.
pub proof fn law_window_shape(pending: Seq<i16>, k: nat)
    requires
        pending.len() > 0,
        k > 0,
    ensures
        window(pending, k) is Some,
        window(pending, k)->0.len() == k,
        forall|i: int| 0 <= i < taken(pending, k) ==> window(pending, k)->0[i] == pending[i],
        forall|i: int| taken(pending, k) <= i < k ==> window(pending, k)->0[i] == 0,
        pending.len() <= k ==> window(pending, k)->0 == pending + silence(
            (k - pending.len()) as nat,
        ),
{
    if pending.len() <= k {
        assert(pending.take(pending.len() as int) =~= pending);
    }
}

/// What a speaker's buffer stands for.
pub struct SpeakerModel {
    /// The participant the buffer belongs to.
    pub sid: Seq<char>,
    /// End of the last window that was asked for.
    pub pts: int,
    /// Samples received and not yet handed out, oldest first.
    pub pending: Seq<i16>,
}

/// Jitter buffer of one participant: a queue of chunks in arrival order and
/// a read cursor into the oldest of them.
pub struct SpeakerChannel {
    sid: String,
    pts: i64,
    frames: VecDeque<MixerData>,
    cursor: usize,
}

impl View for SpeakerChannel {
    type V = SpeakerModel;

    closed spec fn view(&self) -> SpeakerModel {
        SpeakerModel {
            sid: self.sid@,
            pts: self.pts as int,
            pending: joined(self.frames@).skip(self.cursor as int),
        }
    }
}

impl SpeakerChannel {
    /// The cursor stays inside the oldest chunk.
    pub closed spec fn wf(&self) -> bool {
        if self.frames@.len() == 0 {
            self.cursor == 0
        } else {
            self.cursor <= self.frames@[0].data@.len()
        }
    }

    pub fn new(sid: String) -> (s: Self)
        ensures
            s.wf(),
            s@ == (SpeakerModel { sid: sid@, pts: 0, pending: Seq::empty() }),
    {
        let s = Self { sid, pts: 0, frames: VecDeque::new(), cursor: 0 };
        assert(s@.pending =~= Seq::<i16>::empty());
        s
    }

    /// The participant this buffer belongs to.
    pub fn sid(&self) -> (sid: &String)
        ensures
            sid@ == self@.sid,
    {
        &self.sid
    }

    /// End of the last window that was asked for, 0 before the first.
    pub fn pts(&self) -> (pts: i64)
        ensures
            pts == self@.pts,
    {
        self.pts
    }

    /// Queues a chunk behind everything received so far.
    pub fn put(&mut self, data: MixerData)
        requires
            old(self).wf(),
        ensures
            final(self).wf(),
            final(self)@ == (SpeakerModel {
                pending: old(self)@.pending + data.data@,
                ..old(self)@
            }),
    {
        proof {
            lemma_joined_push(self.frames@, data);
        }
        self.frames.push_back(data);
        assert(self@.pending =~= old(self)@.pending + data.data@);
    }

    /// Hands out the next `frame_len` samples, for the window that ends at
    /// timeline position `next_pts`.
    ///
    /// Buffered samples leave in arrival order. Where fewer than `frame_len`
    /// are buffered, the tail of the result is zero-filled. Where no buffered
    /// sample can be had the result is `None`, which stands for silence.
    pub fn next_samples(&mut self, next_pts: i64, frame_len: usize) -> (out: Option<Vec<i16>>)
        requires
            old(self).wf(),
        ensures
            final(self).wf(),
            final(self)@ == (SpeakerModel {
                pts: next_pts as int,
                pending: old(self)@.pending.skip(taken(old(self)@.pending, frame_len as nat) as int),
                ..old(self)@
            }),
            window(old(self)@.pending, frame_len as nat) == match out {
                Some(v) => Some(v@),
                None => None,
            },
    {
        self.pts = next_pts;
        let mut got: Vec<i16> = Vec::new();
        while got.len() < frame_len && self.frames.len() > 0
            invariant
                self.wf(),
                self.sid == old(self).sid,
                self.pts == next_pts,
                got@.len() <= frame_len,
                got@ + self@.pending == old(self)@.pending,
            decreases self.frames@.len(), frame_len - got@.len(),
        {
            let ghost before = self@.pending;
            let ghost queue = self.frames@;
            assert(joined(queue) == queue[0].data@ + joined(queue.skip(1)));
            if self.cursor < self.frames[0].data.len() {
                let sample = self.frames[0].data[self.cursor];
                self.cursor = self.cursor + 1;
                got.push(sample);
                assert(before == seq![sample] + self@.pending) by {
                    assert(before =~= seq![sample] + self@.pending);
                }
                assert(got@ + self@.pending =~= old(self)@.pending);
            } else {
                let _ = self.frames.pop_front();
                self.cursor = 0;
                assert(self.frames@ =~= queue.skip(1));
                assert(self@.pending =~= before);
            }
        }
        let ghost n = taken(old(self)@.pending, frame_len as nat);
        assert(got@.len() == n && self@.pending =~= old(self)@.pending.skip(n as int)
            && got@ =~= old(self)@.pending.take(n as int)) by {
            if self.frames@.len() == 0 {
                assert(joined(self.frames@) =~= Seq::<i16>::empty());
            }
        }
        if got.len() == 0 {
            return None;
        }
        while got.len() < frame_len
            invariant
                n <= got@.len() <= frame_len,
                got@ =~= old(self)@.pending.take(n as int) + silence((got@.len() - n) as nat),
            decreases frame_len - got@.len(),
        {
            got.push(0);
        }
        Some(got)
    }
}

} // verus!
