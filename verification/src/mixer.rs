use crate::channel::{note_received, queued, try_receive};
use crate::mixdown::{mix_frames, views};
use crate::model::{
    law_one_buffer_per_participant, lemma_ingested_all_keeps_timeline, polled_speaker, polled_speakers, polled_windows, routed,
    speaker_at, startup_delay_of, FrameModel, MixerModel,
};
use crate::speaker::{SpeakerChannel, SpeakerModel};
use tokio::sync::mpsc::UnboundedReceiver;
use vstd::prelude::*;
use vstd::string::StringExecFns;

verus! {

/// Channel count of the canonical PCM format.
pub const NB_CHANNELS: u32 = 2;

/// Sample rate of the canonical PCM format, in Hz.
pub const SAMPLE_RATE: u32 = 48_000;

/// One chunk of canonical PCM from one participant.
#[derive(Clone)]
pub struct MixerData {
    pub sid: String,
    pub data: Vec<i16>,
}

/// One frame of the mixed timeline.
pub struct MixedFrame {
    /// Timeline position at which the frame ends, in samples per channel.
    pub pts: i64,
    /// Interleaved samples: frame size times channel count of them.
    pub samples: Vec<i16>,
}

impl View for MixedFrame {
    type V = FrameModel;

    open spec fn view(&self) -> FrameModel {
        FrameModel { pts: self.pts as int, samples: self.samples@ }
    }
}

impl MixedFrame {
    /// Samples per channel in the frame, as the encoder counts them.
    pub fn nb_samples(&self, channels: usize) -> (n: usize)
        requires
            channels > 0,
        ensures
            n == self@.samples.len() / channels as nat,
    {
        self.samples.len() / channels
    }
}

/// What one round of the mixing loop brought.
pub struct Round {
    /// The mixed frame to encode, if the round emitted one.
    pub frame: Option<MixedFrame>,
    /// Whether the ingestion channel is closed for good and drained.
    pub closed: bool,
}

/// Samples to wait at `sample_rate` before the first frame.
pub fn startup_delay(sample_rate: u32) -> (delay: i64)
    ensures
        delay == startup_delay_of(sample_rate as nat),
{
    (sample_rate as i64 + 99) / 100
}

/// The speakers as what they stand for.
pub open spec fn models(speakers: Seq<SpeakerChannel>) -> Seq<SpeakerModel> {
    Seq::new(speakers.len(), |k: int| speakers[k]@)
}

/// Asks every speaker for its next `frame_len` samples and collects the
/// windows of those that had real data.
pub fn poll_speakers(speakers: &mut Vec<SpeakerChannel>, next_pts: i64, frame_len: usize) -> (active:
    Vec<Vec<i16>>)
    requires
        forall|j: int| 0 <= j < old(speakers)@.len() ==> (#[trigger] old(speakers)@[j]).wf(),
    ensures
        forall|j: int| 0 <= j < final(speakers)@.len() ==> (#[trigger] final(speakers)@[j]).wf(),
        models(final(speakers)@) == polled_speakers(
            models(old(speakers)@),
            next_pts as int,
            frame_len as nat,
        ),
        views(active@) == polled_windows(models(old(speakers)@), frame_len as nat),
        forall|k: int| 0 <= k < active@.len() ==> (#[trigger] active@[k])@.len() == frame_len,
{
    let ghost before = models(speakers@);
    let mut active: Vec<Vec<i16>> = Vec::new();
    let mut i: usize = 0;
    assert(views(active@) =~= polled_windows(before.take(0), frame_len as nat));
    while i < speakers.len()
        invariant
            i <= speakers@.len(),
            speakers@.len() == before.len(),
            forall|j: int| 0 <= j < speakers@.len() ==> (#[trigger] speakers@[j]).wf(),
            forall|j: int|
                0 <= j < i ==> (#[trigger] speakers@[j])@ == polled_speaker(
                    before[j],
                    next_pts as int,
                    frame_len as nat,
                ),
            forall|j: int| i <= j < speakers@.len() ==> (#[trigger] speakers@[j])@ == before[j],
            views(active@) == polled_windows(before.take(i as int), frame_len as nat),
            forall|k: int| 0 <= k < active@.len() ==> (#[trigger] active@[k])@.len() == frame_len,
        decreases speakers@.len() - i,
    {
        let ghost seen = views(active@);
        let next = speakers[i].next_samples(next_pts, frame_len);
        proof {
            let upto = before.take(i as int + 1);
            assert(upto.drop_last() =~= before.take(i as int));
            assert(upto.last() == before[i as int]);
        }
        match next {
            Some(samples) => {
                active.push(samples);
                assert(views(active@) =~= seen.push(samples@));
            },
            None => {},
        }
        i = i + 1;
    }
    assert(before.take(i as int) =~= before);
    assert(models(speakers@) =~= polled_speakers(before, next_pts as int, frame_len as nat));
    active
}

/// Mixing engine of one room: the ingestion channel, the speakers' buffers
/// and the timeline.
pub struct Mixer {
    id: String,
    chan_in: UnboundedReceiver<MixerData>,
    speakers: Vec<SpeakerChannel>,
    pts: i64,
    delay: i64,
    frame_size: usize,
    channels: usize,
}

impl View for Mixer {
    type V = MixerModel;

    closed spec fn view(&self) -> MixerModel {
        MixerModel {
            id: self.id@,
            timeline: self.pts as int,
            delay: self.delay as int,
            frame_size: self.frame_size as nat,
            channels: self.channels as nat,
            speakers: models(self.speakers@),
        }
    }
}

impl Mixer {
    /// Every buffer is well formed, no participant has two, and a frame has
    /// a length that the machine can hold.
    pub closed spec fn wf(&self) -> bool {
        &&& forall|j: int| 0 <= j < self.speakers@.len() ==> (#[trigger] self.speakers@[j]).wf()
        &&& self@.distinct_sids()
        &&& self.frame_size >= 1
        &&& self.frame_size <= i64::MAX
        &&& self.frame_size * self.channels <= usize::MAX
    }

    /// What well-formedness says of the model.
    pub proof fn lemma_wf(&self)
        requires
            self.wf(),
        ensures
            self@.distinct_sids(),
            1 <= self@.frame_size <= i64::MAX,
            self@.frame_len() <= usize::MAX,
            i64::MIN <= self@.timeline <= i64::MAX,
            i64::MIN <= self@.delay <= i64::MAX,
    {
    }

    /// A mixer that emits frames of `frame_size` samples on each of
    /// `channels` channels once the timeline has reached `delay`.
    pub fn with_format(
        id: String,
        rx: UnboundedReceiver<MixerData>,
        channels: usize,
        frame_size: usize,
        delay: i64,
    ) -> (m: Self)
        requires
            1 <= frame_size <= i64::MAX,
            frame_size * channels <= usize::MAX,
        ensures
            m.wf(),
            m@ == (MixerModel {
                id: id@,
                timeline: 0,
                delay: delay as int,
                frame_size: frame_size as nat,
                channels: channels as nat,
                speakers: Seq::empty(),
            }),
    {
        let m = Self {
            id,
            chan_in: rx,
            speakers: Vec::new(),
            pts: 0,
            delay,
            frame_size,
            channels,
        };
        assert(m@.speakers =~= Seq::<SpeakerModel>::empty());
        m
    }

    /// A mixer for the canonical format: `NB_CHANNELS` channels, and a
    /// warm-up of ten milliseconds at `SAMPLE_RATE`.
    pub fn new(id: String, rx: UnboundedReceiver<MixerData>, frame_size: usize) -> (m: Self)
        requires
            1 <= frame_size <= i64::MAX,
            frame_size * NB_CHANNELS <= usize::MAX,
        ensures
            m.wf(),
            m@ == (MixerModel {
                id: id@,
                timeline: 0,
                delay: startup_delay_of(SAMPLE_RATE as nat) as int,
                frame_size: frame_size as nat,
                channels: NB_CHANNELS as nat,
                speakers: Seq::empty(),
            }),
    {
        Self::with_format(id, rx, NB_CHANNELS as usize, frame_size, startup_delay(SAMPLE_RATE))
    }

    /// The room whose audio is mixed.
    pub fn id(&self) -> (id: &String)
        ensures
            id@ == self@.id,
    {
        &self.id
    }

    /// Sample position up to which the timeline has advanced.
    pub fn pts(&self) -> (pts: i64)
        ensures
            pts == self@.timeline,
    {
        self.pts
    }

    /// Sample position before which nothing is emitted.
    pub fn delay(&self) -> (delay: i64)
        ensures
            delay == self@.delay,
    {
        self.delay
    }

    /// Samples per channel in one frame.
    pub fn frame_size(&self) -> (frame_size: usize)
        ensures
            frame_size == self@.frame_size,
    {
        self.frame_size
    }

    /// Channels interleaved in one frame.
    pub fn channels(&self) -> (channels: usize)
        ensures
            channels == self@.channels,
    {
        self.channels
    }

    /// How many participants have a buffer.
    pub fn speaker_count(&self) -> (count: usize)
        ensures
            count == self@.speakers.len(),
    {
        self.speakers.len()
    }

    /// Where the room's live playlist is written.
    pub fn output_path(&self) -> (path: String)
        ensures
            path@ == self@.id + "/live.m3u8"@,
    {
        self.id.clone().concat("/live.m3u8")
    }

    /// Whether the timeline can advance by one more frame.
    pub fn can_advance(&self) -> (ok: bool)
        requires
            self.wf(),
        ensures
            ok == (self@.next_pts() <= i64::MAX),
    {
        self.pts <= i64::MAX - self.frame_size as i64
    }

    /// One tick of the timeline.
    ///
    /// The timeline advances by one frame. During the warm-up nothing else
    /// happens. After it every speaker is asked for its next window, and the
    /// windows of those that had real data are mixed with equal weight; where
    /// nobody had any, no frame is emitted.
    pub fn mix(&mut self) -> (out: Option<MixedFrame>)
        requires
            old(self).wf(),
            old(self)@.next_pts() <= i64::MAX,
        ensures
            final(self).wf(),
            final(self)@ == old(self)@.ticked(),
            old(self)@.emitted() == match out {
                Some(frame) => Some(frame@),
                None => None,
            },
            out matches Some(frame) ==> {
                &&& frame@.samples.len() == old(self)@.frame_size * old(self)@.channels
                &&& frame@.pts == old(self)@.timeline + old(self)@.frame_size
                &&& frame@.pts >= old(self)@.delay
            },
    {
        let ghost before = self@;
        let next_pts = self.pts + self.frame_size as i64;
        self.pts = next_pts;
        if next_pts < self.delay {
            assert(self@ == before.ticked());
            return None;
        }
        let frame_len = self.frame_size * self.channels;
        let active = poll_speakers(&mut self.speakers, next_pts, frame_len);
        assert(self@ == before.ticked());
        assert(self@.distinct_sids()) by {
            assert forall|a: int, b: int| 0 <= a < b < self@.speakers.len() implies (
            #[trigger] self@.speakers[a]).sid != (#[trigger] self@.speakers[b]).sid by {
                assert(self@.speakers[a].sid == before.speakers[a].sid);
                assert(self@.speakers[b].sid == before.speakers[b].sid);
            }
        }
        if active.len() == 0 {
            return None;
        }
        let samples = mix_frames(&active, frame_len);
        Some(MixedFrame { pts: next_pts, samples })
    }

    /// One round of the mixing loop on given chunks: takes them in, in
    /// their order, then ticks once.
    pub fn round(&mut self, chunks: Vec<MixerData>) -> (out: Option<MixedFrame>)
        requires
            old(self).wf(),
            old(self)@.next_pts() <= i64::MAX,
        ensures
            final(self).wf(),
            final(self)@ == old(self)@.ingested_all(chunks@).ticked(),
            old(self)@.ingested_all(chunks@).emitted() == match out {
                Some(frame) => Some(frame@),
                None => None,
            },
    {
        let ghost before = self@;
        for data in it: chunks
            invariant
                self.wf(),
                it.seq() == chunks@,
                self@ == before.ingested_all(chunks@.take(it.index() as int)),
                self@.next_pts() == before.next_pts(),
        {
            proof {
                let upto = chunks@.take(it.index() + 1);
                assert(upto.drop_last() =~= chunks@.take(it.index() as int));
                assert(upto.last() == data);
            }
            self.ingest(data);
        }
        assert(chunks@.take(chunks@.len() as int) =~= chunks@);
        self.mix()
    }

    /// Takes out of the ingestion channel what is queued there, without
    /// waiting for more, and says whether the channel is closed for good.
    /// The mixer itself is left as it was.
    pub fn receive(&mut self) -> (got: (Vec<MixerData>, bool))
        ensures
            final(self)@ == old(self)@,
            final(self).wf() == old(self).wf(),
    {
        let mut batch: Vec<MixerData> = Vec::new();
        let mut closed = false;
        let waiting = queued(&self.chan_in);
        let mut looks: usize = if waiting < usize::MAX {
            waiting + 1
        } else {
            waiting
        };
        while looks > 0
            invariant
                self@ == old(self)@,
                self.wf() == old(self).wf(),
            decreases looks,
        {
            let received = try_receive(&mut self.chan_in);
            match note_received(&mut batch, received) {
                None => {
                    looks = looks - 1;
                },
                Some(end) => {
                    closed = end;
                    looks = 0;
                },
            }
        }
        (batch, closed)
    }

    /// One round of the mixing loop: takes in the chunks that have arrived
    /// since the last round, then ticks once. Whatever has arrived, the
    /// timeline advances by exactly one frame.
    pub fn run(&mut self) -> (out: Round)
        requires
            old(self).wf(),
            old(self)@.next_pts() <= i64::MAX,
        ensures
            final(self).wf(),
            exists|chunks: Seq<MixerData>|
                {
                    &&& final(self)@ == #[trigger] old(self)@.round(chunks)
                    &&& old(self)@.ingested_all(chunks).emitted() == match out.frame {
                        Some(frame) => Some(frame@),
                        None => None,
                    }
                },
            final(self)@.timeline == old(self)@.timeline + old(self)@.frame_size,
            out.frame matches Some(frame) ==> {
                &&& frame@.samples.len() == old(self)@.frame_size * old(self)@.channels
                &&& frame@.pts == final(self)@.timeline
                &&& frame@.pts >= old(self)@.delay
            },
    {
        let (batch, closed) = self.receive();
        let ghost chunks = batch@;
        proof {
            lemma_ingested_all_keeps_timeline(old(self)@, chunks);
        }
        let frame = self.round(batch);
        assert(self@ == old(self)@.round(chunks));
        Round { frame, closed }
    }

    /// Routes a chunk to the buffer of its participant, which is created on
    /// the participant's first chunk.
    pub fn ingest(&mut self, data: MixerData)
        requires
            old(self).wf(),
        ensures
            final(self).wf(),
            final(self)@ == old(self)@.ingested(data.sid@, data.data@),
    {
        let ghost before = self@.speakers;
        let n = self.speakers.len();
        let mut at: usize = n;
        let mut i: usize = 0;
        while i < n && at == n
            invariant
                *self == *old(self),
                n == self.speakers@.len(),
                i <= n,
                at == n || (at < i && speaker_at(before, data.sid@, at as int)),
                at == n ==> forall|j: int| 0 <= j < i ==> !speaker_at(before, data.sid@, j),
                before == models(self.speakers@),
            decreases n - i,
        {
            if *self.speakers[i].sid() == data.sid {
                at = i;
            }
            i = i + 1;
        }
        if at < n {
            proof {
                let chosen = choose|j: int| speaker_at(before, data.sid@, j);
                assert(chosen == at) by {
                    if chosen < at {
                        assert(before[chosen].sid != before[at as int].sid);
                    } else if chosen > at {
                        assert(before[at as int].sid != before[chosen].sid);
                    }
                }
            }
            self.speakers[at].put(data);
            assert(self@.speakers =~= routed(before, data.sid@, data.data@));
        } else {
            let mut speaker = SpeakerChannel::new(data.sid.clone());
            speaker.put(data);
            self.speakers.push(speaker);
            assert(self@.speakers =~= routed(before, data.sid@, data.data@)) by {
                assert(Seq::<i16>::empty() + data.data@ =~= data.data@);
            }
        }
        proof {
            law_one_buffer_per_participant(old(self)@, data.sid@, data.data@);
        }
    }
}

} // verus!
