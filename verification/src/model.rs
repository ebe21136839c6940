use crate::mixdown::mixdown;
use crate::mixer::MixerData;
use crate::speaker::{taken, window, SpeakerModel};
use vstd::prelude::*;

verus! {

/// What a mixed frame stands for.
pub struct FrameModel {
    pub pts: int,
    pub samples: Seq<i16>,
}

/// What a mixer stands for.
pub struct MixerModel {
    /// The room whose audio is mixed.
    pub id: Seq<char>,
    /// Sample position up to which the timeline has advanced.
    pub timeline: int,
    /// Sample position before which nothing is emitted.
    pub delay: int,
    /// Samples per channel in one frame.
    pub frame_size: nat,
    /// Channels interleaved in one frame.
    pub channels: nat,
    /// The speakers in the order in which they were first heard.
    pub speakers: Seq<SpeakerModel>,
}

/// The warm-up at `sample_rate`: a hundredth of a second in samples,
/// rounded up.
pub open spec fn startup_delay_of(sample_rate: nat) -> nat {
    (sample_rate + 99) / 100
}

/// What makes `startup_delay_of` the rounded-up hundredth: it is the least
/// number of samples that lasts ten milliseconds or more.
pub proof fn lemma_startup_delay(sample_rate: nat)
    ensures
        100 * startup_delay_of(sample_rate) >= sample_rate,
        100 * startup_delay_of(sample_rate) < sample_rate + 100,
{
}

/// Whether participant `sid` has a buffer at index `i`.
pub open spec fn speaker_at(speakers: Seq<SpeakerModel>, sid: Seq<char>, i: int) -> bool {
    0 <= i < speakers.len() && speakers[i].sid == sid
}

/// The speakers after a chunk of `samples` from participant `sid` came in:
/// it goes behind what the participant's buffer holds, or into a new buffer
/// at the end where the participant has none.
pub open spec fn routed(speakers: Seq<SpeakerModel>, sid: Seq<char>, samples: Seq<i16>) -> Seq<
    SpeakerModel,
> {
    if exists|i: int| speaker_at(speakers, sid, i) {
        let i = choose|i: int| speaker_at(speakers, sid, i);
        speakers.update(i, SpeakerModel { pending: speakers[i].pending + samples, ..speakers[i] })
    } else {
        speakers.push(SpeakerModel { sid, pts: 0, pending: samples })
    }
}

/// The windows of `k` samples that a poll obtains, from the speakers that
/// have real data, in the order of the speakers.
pub open spec fn polled_windows(speakers: Seq<SpeakerModel>, k: nat) -> Seq<Seq<i16>>
    decreases speakers.len(),
{
    if speakers.len() == 0 {
        Seq::empty()
    } else {
        let before = polled_windows(speakers.drop_last(), k);
        match window(speakers.last().pending, k) {
            Some(w) => before.push(w),
            None => before,
        }
    }
}

/// One speaker after a poll for `k` samples up to position `next`.
pub open spec fn polled_speaker(s: SpeakerModel, next: int, k: nat) -> SpeakerModel {
    SpeakerModel { pts: next, pending: s.pending.skip(taken(s.pending, k) as int), ..s }
}

/// All the speakers after a poll for `k` samples up to position `next`.
pub open spec fn polled_speakers(speakers: Seq<SpeakerModel>, next: int, k: nat) -> Seq<
    SpeakerModel,
> {
    Seq::new(speakers.len(), |j: int| polled_speaker(speakers[j], next, k))
}

impl MixerModel {
    /// Interleaved samples in one frame.
    pub open spec fn frame_len(self) -> nat {
        self.frame_size * self.channels
    }

    /// Where the timeline stands after the next tick.
    pub open spec fn next_pts(self) -> int {
        self.timeline + self.frame_size
    }

    /// Whether the next tick still falls into the warm-up.
    pub open spec fn warming_up(self) -> bool {
        self.next_pts() < self.delay
    }

    /// No participant has two buffers.
    pub open spec fn distinct_sids(self) -> bool {
        forall|i: int, j: int|
            0 <= i < j < self.speakers.len() ==> (#[trigger] self.speakers[i]).sid != (
            #[trigger] self.speakers[j]).sid
    }

    /// The mixer after one tick.
    pub open spec fn ticked(self) -> MixerModel {
        MixerModel {
            timeline: self.next_pts(),
            speakers: if self.warming_up() {
                self.speakers
            } else {
                polled_speakers(self.speakers, self.next_pts(), self.frame_len())
            },
            ..self
        }
    }

    /// The frame that the next tick emits, if it emits one.
    pub open spec fn emitted(self) -> Option<FrameModel> {
        let active = polled_windows(self.speakers, self.frame_len());
        if self.warming_up() || active.len() == 0 {
            None
        } else {
            Some(FrameModel { pts: self.next_pts(), samples: mixdown(active, self.frame_len()) })
        }
    }

    /// The mixer after a chunk of `samples` from participant `sid` came in.
    pub open spec fn ingested(self, sid: Seq<char>, samples: Seq<i16>) -> MixerModel {
        MixerModel { speakers: routed(self.speakers, sid, samples), ..self }
    }

    /// The mixer after all the chunks came in, in their order.
    pub open spec fn ingested_all(self, chunks: Seq<MixerData>) -> MixerModel
        decreases chunks.len(),
    {
        if chunks.len() == 0 {
            self
        } else {
            self.ingested_all(chunks.drop_last()).ingested(chunks.last().sid@, chunks.last().data@)
        }
    }
}

impl MixerModel {
    /// The mixer after one round of the mixing loop: the chunks come in,
    /// then the timeline ticks.
    pub open spec fn round(self, chunks: Seq<MixerData>) -> MixerModel {
        self.ingested_all(chunks).ticked()
    }

    /// The mixer after one round for each of the batches of chunks.
    pub open spec fn rounds(self, batches: Seq<Seq<MixerData>>) -> MixerModel
        decreases batches.len(),
    {
        if batches.len() == 0 {
            self
        } else {
            self.rounds(batches.drop_last()).round(batches.last())
        }
    }
}

/// Taking chunks in changes the speakers only: the timeline and the format
/// stay.
pub proof fn lemma_ingested_all_keeps_timeline(m: MixerModel, chunks: Seq<MixerData>)
    ensures
        m.ingested_all(chunks) == (MixerModel { speakers: m.ingested_all(chunks).speakers, ..m }),
    decreases chunks.len(),
{
    if chunks.len() > 0 {
        lemma_ingested_all_keeps_timeline(m, chunks.drop_last());
    }
}

/// No participant ever has two buffers: a chunk goes to the one buffer of
/// its participant, which exists afterwards, and the other buffers stay as
/// they were.
pub proof fn law_one_buffer_per_participant(m: MixerModel, sid: Seq<char>, samples: Seq<i16>)
    requires
        m.distinct_sids(),
    ensures
        m.ingested(sid, samples).distinct_sids(),
        exists|i: int| speaker_at(m.ingested(sid, samples).speakers, sid, i),
        forall|j: int|
            0 <= j < m.speakers.len() && (#[trigger] m.speakers[j]).sid != sid ==> m.ingested(
                sid,
                samples,
            ).speakers[j] == m.speakers[j],
{
    let after = m.ingested(sid, samples).speakers;
    if exists|i: int| speaker_at(m.speakers, sid, i) {
        let i = choose|i: int| speaker_at(m.speakers, sid, i);
        assert(speaker_at(after, sid, i));
        assert forall|a: int, b: int| 0 <= a < b < after.len() implies (#[trigger] after[a]).sid
            != (#[trigger] after[b]).sid by {
            assert(after[a].sid == m.speakers[a].sid);
            assert(after[b].sid == m.speakers[b].sid);
        }
    } else {
        let n = m.speakers.len() as int;
        assert(speaker_at(after, sid, n));
        assert forall|a: int, b: int| 0 <= a < b < after.len() implies (#[trigger] after[a]).sid
            != (#[trigger] after[b]).sid by {
            if b < n {
                assert(after[a].sid == m.speakers[a].sid);
                assert(after[b].sid == m.speakers[b].sid);
            } else {
                assert(!speaker_at(m.speakers, sid, a));
            }
        }
    }
}

/// An emitted frame is never partial: it holds frame size times channel
/// count samples.
pub proof fn law_frame_is_full(m: MixerModel)
    ensures
        m.emitted() matches Some(frame) ==> frame.samples.len() == m.frame_size * m.channels,
{
}

/// The timeline advances by exactly one frame at every round, whether the
/// round emits a frame or not: after `n` rounds it stands `n` frames further,
/// whatever came in between.
pub proof fn law_timeline_is_gap_free(m: MixerModel, batches: Seq<Seq<MixerData>>)
    ensures
        m.rounds(batches).timeline == m.timeline + batches.len() * m.frame_size,
        m.rounds(batches).frame_size == m.frame_size,
        m.rounds(batches).channels == m.channels,
        m.rounds(batches).delay == m.delay,
        m.rounds(batches).id == m.id,
    decreases batches.len(),
{
    if batches.len() > 0 {
        let init = batches.drop_last();
        law_timeline_is_gap_free(m, init);
        lemma_ingested_all_keeps_timeline(m.rounds(init), batches.last());
        assert(batches.len() * m.frame_size == init.len() * m.frame_size + m.frame_size)
            by (nonlinear_arith)
            requires
                batches.len() == init.len() + 1,
        ;
    } else {
        assert(batches.len() * m.frame_size == 0) by (nonlinear_arith)
            requires
                batches.len() == 0,
        ;
    }
}

/// The frame of a round carries the position that the round brings the
/// timeline to, so the frames of later rounds carry later positions, one
/// frame further for each round.
pub proof fn law_pts_follows_timeline(m: MixerModel, chunks: Seq<MixerData>)
    ensures
        m.round(chunks).timeline == m.timeline + m.frame_size,
        m.ingested_all(chunks).emitted() matches Some(frame) ==> frame.pts == m.round(
            chunks,
        ).timeline,
{
    lemma_ingested_all_keeps_timeline(m, chunks);
}

/// The frames of later rounds carry later positions: the timeline never
/// stands still and never goes back.
pub proof fn law_pts_strictly_increases(
    m: MixerModel,
    earlier: Seq<Seq<MixerData>>,
    later: Seq<Seq<MixerData>>,
)
    requires
        m.frame_size >= 1,
        earlier.len() < later.len(),
    ensures
        m.rounds(earlier).timeline < m.rounds(later).timeline,
{
    law_timeline_is_gap_free(m, earlier);
    law_timeline_is_gap_free(m, later);
    assert(earlier.len() * m.frame_size < later.len() * m.frame_size) by (nonlinear_arith)
        requires
            m.frame_size >= 1,
            earlier.len() < later.len(),
    ;
}

/// Nothing is emitted during the warm-up, and no emitted frame lies before
/// the configured delay.
pub proof fn law_warm_up(m: MixerModel)
    ensures
        m.timeline + m.frame_size < m.delay ==> m.emitted() is None,
        m.timeline + m.frame_size < m.delay ==> m.ticked().speakers == m.speakers,
        m.emitted() matches Some(frame) ==> frame.pts >= m.delay,
{
}

/// Speakers that hold nothing contribute no window.
pub proof fn lemma_silent_speakers_poll_nothing(speakers: Seq<SpeakerModel>, k: nat)
    requires
        forall|j: int| 0 <= j < speakers.len() ==> (#[trigger] speakers[j]).pending.len() == 0,
    ensures
        polled_windows(speakers, k).len() == 0,
    decreases speakers.len(),
{
    if speakers.len() > 0 {
        let init = speakers.drop_last();
        assert forall|j: int| 0 <= j < init.len() implies (#[trigger] init[j]).pending.len()
            == 0 by {
            assert(init[j] == speakers[j]);
        }
        lemma_silent_speakers_poll_nothing(init, k);
    }
}

/// Where no speaker holds any data, a tick emits no frame, so that nothing
/// is encoded, and yet the timeline advances by one frame; the speakers
/// still hold nothing afterwards.
pub proof fn law_silence_emits_nothing(m: MixerModel)
    requires
        forall|j: int| 0 <= j < m.speakers.len() ==> (#[trigger] m.speakers[j]).pending.len() == 0,
    ensures
        m.emitted() is None,
        m.ticked().timeline == m.timeline + m.frame_size,
        m.ticked().speakers.len() == m.speakers.len(),
        forall|j: int|
            0 <= j < m.speakers.len() ==> (#[trigger] m.ticked().speakers[j]).pending.len() == 0,
{
    lemma_silent_speakers_poll_nothing(m.speakers, m.frame_len());
}

/// Polling two groups of speakers one after the other obtains the windows
/// of the first group, then those of the second.
pub proof fn lemma_polled_windows_concat(a: Seq<SpeakerModel>, b: Seq<SpeakerModel>, k: nat)
    ensures
        polled_windows(a + b, k) == polled_windows(a, k) + polled_windows(b, k),
    decreases b.len(),
{
    if b.len() == 0 {
        assert(a + b =~= a);
        assert(polled_windows(a, k) + polled_windows(b, k) =~= polled_windows(a, k));
    } else {
        let init = b.drop_last();
        lemma_polled_windows_concat(a, init, k);
        assert((a + b).drop_last() =~= a + init);
        assert((a + b).last() == b.last());
        match window(b.last().pending, k) {
            Some(w) => {
                assert(polled_windows(a + b, k) =~= polled_windows(a, k) + polled_windows(b, k));
            },
            None => {},
        }
    }
}

/// A speaker whose buffer is empty, because it has not sent yet or has
/// dropped out, leaves the mix of the others as it is.
pub proof fn law_silent_speaker_is_left_out(
    before: Seq<SpeakerModel>,
    silent: SpeakerModel,
    after: Seq<SpeakerModel>,
    k: nat,
)
    requires
        silent.pending.len() == 0,
    ensures
        polled_windows(before + seq![silent] + after, k) == polled_windows(before + after, k),
{
    let one = seq![silent];
    assert(one.drop_last() =~= Seq::<SpeakerModel>::empty());
    assert(polled_windows(one.drop_last(), k) =~= Seq::<Seq<i16>>::empty());
    assert(polled_windows(one, k) =~= Seq::<Seq<i16>>::empty());
    lemma_polled_windows_concat(before, one, k);
    lemma_polled_windows_concat(before + one, after, k);
    lemma_polled_windows_concat(before, after, k);
    assert(polled_windows(before, k) + polled_windows(one, k) =~= polled_windows(before, k));
}

} // verus!
