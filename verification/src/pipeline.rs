use vstd::prelude::*;

verus! {

/// Where an encode pipeline stands in its life.
#[derive(Clone, Copy, Debug, PartialEq, Eq, Structural)]
pub enum PipelineState {
    /// Nothing is allocated yet.
    Uninitialized,
    /// Encoder and muxer are open and the container header is written.
    Open,
    /// At least one frame was handed to the encoder.
    Encoding,
    /// End of stream was signalled; the encoder is being drained.
    Flushing,
    /// Everything is released. Nothing leads out of this state.
    Closed,
}

/// Why an encode pipeline ended.
#[derive(Clone, Copy, Debug, PartialEq, Eq, Structural)]
pub enum PipelineError {
    /// Encoder or muxer could not be set up, or the header not written.
    SetupFailed,
    /// The codec failed, or a packet could not be written.
    EncodeFailed,
}

/// What happened around the pipeline.
#[derive(Clone, Copy, Debug, PartialEq, Eq, Structural)]
pub enum PipelineEvent {
    /// Encoder and muxer were opened.
    Opened,
    /// Opening them failed.
    OpenFailed,
    /// The mixer emitted a frame.
    Frame,
    /// Encoding a frame or writing one of its packets failed.
    EncodeFailed,
    /// The input is closed for good and drained.
    InputClosed,
    /// The flush has gone through, as far as it could.
    Flushed,
}

/// What is to be done next with the encoder and the muxer.
#[derive(Clone, Copy, Debug, PartialEq, Eq, Structural)]
pub enum PipelineAction {
    /// Nothing.
    Wait,
    /// Submit the frame, drain the encoder, write the packets.
    Encode,
    /// Signal end of stream, drain, write, finalize and release.
    Flush,
    /// The pipeline has ended cleanly.
    Stop,
    /// The pipeline has ended with this error.
    Fail(PipelineError),
}

/// What an encode pipeline stands for.
pub struct PipelineModel {
    pub state: PipelineState,
    /// The error to surface once the pipeline is closed.
    pub error: Option<PipelineError>,
}

impl PipelineModel {
    /// Whether frames can be encoded.
    pub open spec fn accepts_frames(self) -> bool {
        self.state == PipelineState::Open || self.state == PipelineState::Encoding
    }

    /// What the event asks for in this state. An event that a state does
    /// not expect asks for nothing.
    pub open spec fn action(self, event: PipelineEvent) -> PipelineAction {
        if self.state == PipelineState::Uninitialized && event == PipelineEvent::OpenFailed {
            PipelineAction::Fail(PipelineError::SetupFailed)
        } else if self.accepts_frames() && event == PipelineEvent::Frame {
            PipelineAction::Encode
        } else if self.accepts_frames() && (event == PipelineEvent::EncodeFailed || event
            == PipelineEvent::InputClosed) {
            PipelineAction::Flush
        } else if self.state == PipelineState::Flushing && event == PipelineEvent::Flushed {
            match self.error {
                Some(e) => PipelineAction::Fail(e),
                None => PipelineAction::Stop,
            }
        } else {
            PipelineAction::Wait
        }
    }

    /// The pipeline after the event. An event that a state does not expect
    /// changes nothing.
    pub open spec fn next(self, event: PipelineEvent) -> PipelineModel {
        match self.action(event) {
            PipelineAction::Wait => if self.state == PipelineState::Uninitialized && event
                == PipelineEvent::Opened {
                PipelineModel { state: PipelineState::Open, ..self }
            } else {
                self
            },
            PipelineAction::Encode => PipelineModel { state: PipelineState::Encoding, ..self },
            PipelineAction::Flush => PipelineModel {
                state: PipelineState::Flushing,
                error: if event == PipelineEvent::EncodeFailed {
                    Some(PipelineError::EncodeFailed)
                } else {
                    None
                },
            },
            PipelineAction::Stop => PipelineModel { state: PipelineState::Closed, ..self },
            PipelineAction::Fail(e) => PipelineModel {
                state: PipelineState::Closed,
                error: Some(e),
            },
        }
    }

    /// The pipeline after the events, in their order.
    pub open spec fn after(self, events: Seq<PipelineEvent>) -> PipelineModel
        decreases events.len(),
    {
        if events.len() == 0 {
            self
        } else {
            self.next(events[0]).after(events.skip(1))
        }
    }

    /// How often the events ask for a flush.
    pub open spec fn flushes(self, events: Seq<PipelineEvent>) -> nat
        decreases events.len(),
    {
        if events.len() == 0 {
            0
        } else {
            let first: nat = if self.action(events[0]) == PipelineAction::Flush {
                1
            } else {
                0
            };
            first + self.next(events[0]).flushes(events.skip(1))
        }
    }
}

/// Nothing leads out of `Closed`, and nothing is asked for there.
pub proof fn law_closed_is_final(p: PipelineModel, event: PipelineEvent)
    requires
        p.state == PipelineState::Closed,
    ensures
        p.next(event) == p,
        p.action(event) == PipelineAction::Wait,
{
}

/// A frame is encoded only between opening and flushing.
pub proof fn law_encode_only_while_open(p: PipelineModel, event: PipelineEvent)
    ensures
        p.action(event) == PipelineAction::Encode <==> p.accepts_frames() && event
            == PipelineEvent::Frame,
        p.action(event) == PipelineAction::Encode ==> p.next(event).state
            == PipelineState::Encoding,
{
}

/// A failure while frames are encoded is surfaced, after the flush, as
/// `EncodeFailed`; a pipeline whose input just closed ends cleanly.
pub proof fn law_failure_is_surfaced_after_flush(p: PipelineModel)
    requires
        p.accepts_frames(),
    ensures
        p.action(PipelineEvent::EncodeFailed) == PipelineAction::Flush,
        p.next(PipelineEvent::EncodeFailed).action(PipelineEvent::Flushed) == PipelineAction::Fail(
            PipelineError::EncodeFailed,
        ),
        p.action(PipelineEvent::InputClosed) == PipelineAction::Flush,
        p.next(PipelineEvent::InputClosed).action(PipelineEvent::Flushed) == PipelineAction::Stop,
{
}

/// Whatever happens, a flush is asked for at most once, and never once the
/// pipeline is flushing or closed.
pub proof fn law_flush_at_most_once(p: PipelineModel, events: Seq<PipelineEvent>)
    ensures
        p.flushes(events) <= 1,
        p.state == PipelineState::Flushing || p.state == PipelineState::Closed ==> p.flushes(events)
            == 0,
    decreases events.len(),
{
    if events.len() > 0 {
        law_flush_at_most_once(p.next(events[0]), events.skip(1));
    }
}

/// An open pipeline that has been closed was flushed exactly once on the
/// way, whether it ended cleanly or on an error.
pub proof fn law_flush_exactly_once(p: PipelineModel, events: Seq<PipelineEvent>)
    requires
        p.accepts_frames(),
        p.after(events).state == PipelineState::Closed,
    ensures
        p.flushes(events) == 1,
    decreases events.len(),
{
    if events.len() > 0 {
        let q = p.next(events[0]);
        if q.accepts_frames() {
            law_flush_exactly_once(q, events.skip(1));
        } else {
            law_flush_at_most_once(q, events.skip(1));
        }
    }
}

/// Lifecycle of the encoder and the muxer behind one mixer.
#[derive(Clone, Copy, Debug)]
pub struct EncodePipeline {
    state: PipelineState,
    error: Option<PipelineError>,
}

impl View for EncodePipeline {
    type V = PipelineModel;

    closed spec fn view(&self) -> PipelineModel {
        PipelineModel { state: self.state, error: self.error }
    }
}

impl EncodePipeline {
    /// A pipeline with nothing allocated.
    pub fn new() -> (p: Self)
        ensures
            p@ == (PipelineModel { state: PipelineState::Uninitialized, error: None }),
    {
        Self { state: PipelineState::Uninitialized, error: None }
    }

    pub fn state(&self) -> (state: PipelineState)
        ensures
            state == self@.state,
    {
        self.state
    }

    /// The error to surface once the pipeline is closed.
    pub fn error(&self) -> (error: Option<PipelineError>)
        ensures
            error == self@.error,
    {
        self.error
    }

    /// Takes note of an event and says what is to be done next.
    pub fn step(&mut self, event: PipelineEvent) -> (action: PipelineAction)
        ensures
            action == old(self)@.action(event),
            final(self)@ == old(self)@.next(event),
    {
        match (self.state, event) {
            (PipelineState::Uninitialized, PipelineEvent::Opened) => {
                self.state = PipelineState::Open;
                PipelineAction::Wait
            },
            (PipelineState::Uninitialized, PipelineEvent::OpenFailed) => {
                self.state = PipelineState::Closed;
                self.error = Some(PipelineError::SetupFailed);
                PipelineAction::Fail(PipelineError::SetupFailed)
            },
            (PipelineState::Open, PipelineEvent::Frame)
            | (PipelineState::Encoding, PipelineEvent::Frame) => {
                self.state = PipelineState::Encoding;
                PipelineAction::Encode
            },
            (PipelineState::Open, PipelineEvent::EncodeFailed)
            | (PipelineState::Encoding, PipelineEvent::EncodeFailed) => {
                self.state = PipelineState::Flushing;
                self.error = Some(PipelineError::EncodeFailed);
                PipelineAction::Flush
            },
            (PipelineState::Open, PipelineEvent::InputClosed)
            | (PipelineState::Encoding, PipelineEvent::InputClosed) => {
                self.state = PipelineState::Flushing;
                self.error = None;
                PipelineAction::Flush
            },
            (PipelineState::Flushing, PipelineEvent::Flushed) => {
                self.state = PipelineState::Closed;
                match self.error {
                    Some(e) => PipelineAction::Fail(e),
                    None => PipelineAction::Stop,
                }
            },
            _ => PipelineAction::Wait,
        }
    }
}

} // verus!
