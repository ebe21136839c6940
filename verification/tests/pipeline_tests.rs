use room_egress::pipeline::{
    EncodePipeline, PipelineAction, PipelineError, PipelineEvent, PipelineState,
};

const EVENTS: [PipelineEvent; 6] = [
    PipelineEvent::Opened,
    PipelineEvent::OpenFailed,
    PipelineEvent::Frame,
    PipelineEvent::EncodeFailed,
    PipelineEvent::InputClosed,
    PipelineEvent::Flushed,
];

fn opened() -> EncodePipeline {
    let mut p = EncodePipeline::new();
    assert_eq!(p.step(PipelineEvent::Opened), PipelineAction::Wait);
    p
}

#[test]
fn a_clean_run() {
    let mut p = EncodePipeline::new();
    assert_eq!(p.state(), PipelineState::Uninitialized);
    assert_eq!(p.error(), None);
    assert_eq!(p.step(PipelineEvent::Opened), PipelineAction::Wait);
    assert_eq!(p.state(), PipelineState::Open);
    assert_eq!(p.step(PipelineEvent::Frame), PipelineAction::Encode);
    assert_eq!(p.state(), PipelineState::Encoding);
    assert_eq!(p.step(PipelineEvent::Frame), PipelineAction::Encode);
    assert_eq!(p.state(), PipelineState::Encoding);
    assert_eq!(p.step(PipelineEvent::InputClosed), PipelineAction::Flush);
    assert_eq!(p.state(), PipelineState::Flushing);
    assert_eq!(p.step(PipelineEvent::Flushed), PipelineAction::Stop);
    assert_eq!(p.state(), PipelineState::Closed);
    assert_eq!(p.error(), None);
}

#[test]
fn setup_failure_closes_without_a_flush() {
    let mut p = EncodePipeline::new();
    assert_eq!(
        p.step(PipelineEvent::OpenFailed),
        PipelineAction::Fail(PipelineError::SetupFailed)
    );
    assert_eq!(p.state(), PipelineState::Closed);
    assert_eq!(p.error(), Some(PipelineError::SetupFailed));
}

#[test]
fn encode_failure_is_flushed_then_surfaced() {
    let mut p = opened();
    assert_eq!(p.step(PipelineEvent::Frame), PipelineAction::Encode);
    assert_eq!(p.step(PipelineEvent::EncodeFailed), PipelineAction::Flush);
    assert_eq!(p.state(), PipelineState::Flushing);
    assert_eq!(p.error(), Some(PipelineError::EncodeFailed));
    assert_eq!(p.step(PipelineEvent::Frame), PipelineAction::Wait);
    assert_eq!(
        p.step(PipelineEvent::Flushed),
        PipelineAction::Fail(PipelineError::EncodeFailed)
    );
    assert_eq!(p.state(), PipelineState::Closed);
}

#[test]
fn a_pipeline_without_frames_is_flushed_too() {
    let mut p = opened();
    assert_eq!(p.step(PipelineEvent::InputClosed), PipelineAction::Flush);
    assert_eq!(p.step(PipelineEvent::Flushed), PipelineAction::Stop);
    assert_eq!(p.state(), PipelineState::Closed);
}

#[test]
fn nothing_leads_out_of_closed() {
    let mut p = opened();
    p.step(PipelineEvent::InputClosed);
    p.step(PipelineEvent::Flushed);
    for e in EVENTS {
        assert_eq!(p.step(e), PipelineAction::Wait);
        assert_eq!(p.state(), PipelineState::Closed);
        assert_eq!(p.error(), None);
    }
}

#[test]
fn nothing_is_encoded_before_the_pipeline_is_open() {
    for e in [
        PipelineEvent::Frame,
        PipelineEvent::EncodeFailed,
        PipelineEvent::InputClosed,
        PipelineEvent::Flushed,
    ] {
        let mut p = EncodePipeline::new();
        assert_eq!(p.step(e), PipelineAction::Wait);
        assert_eq!(p.state(), PipelineState::Uninitialized);
    }
}

#[test]
fn unexpected_events_change_nothing() {
    let mut p = opened();
    assert_eq!(p.step(PipelineEvent::Opened), PipelineAction::Wait);
    assert_eq!(p.step(PipelineEvent::OpenFailed), PipelineAction::Wait);
    assert_eq!(p.step(PipelineEvent::Flushed), PipelineAction::Wait);
    assert_eq!(p.state(), PipelineState::Open);
    p.step(PipelineEvent::InputClosed);
    for e in [
        PipelineEvent::Opened,
        PipelineEvent::OpenFailed,
        PipelineEvent::Frame,
        PipelineEvent::EncodeFailed,
        PipelineEvent::InputClosed,
    ] {
        assert_eq!(p.step(e), PipelineAction::Wait);
        assert_eq!(p.state(), PipelineState::Flushing);
        assert_eq!(p.error(), None);
    }
}

fn flushes(start: EncodePipeline, trace: &[usize]) -> (usize, PipelineState) {
    let mut p = start;
    let mut count = 0;
    for i in trace {
        if p.step(EVENTS[*i]) == PipelineAction::Flush {
            count += 1;
        }
    }
    (count, p.state())
}

#[test]
fn every_trace_flushes_at_most_once_and_exactly_once_on_the_way_to_closed() {
    let n = EVENTS.len();
    let mut trace = [0usize; 4];
    for code in 0..n * n * n * n {
        let mut c = code;
        for slot in trace.iter_mut() {
            *slot = c % n;
            c /= n;
        }
        let (count, _) = flushes(EncodePipeline::new(), &trace);
        assert!(count <= 1);
        let (count, end) = flushes(opened(), &trace);
        assert!(count <= 1);
        if end == PipelineState::Closed {
            assert_eq!(count, 1);
        }
    }
}
