//! Real-time audio mixing for conference rooms: per-speaker jitter buffers,
//! a sample-position timeline, and fixed-size frame assembly for a block
//! encoder.

pub mod channel;
pub mod egress;
pub mod mixdown;
pub mod mixer;
pub mod model;
pub mod pipeline;
pub mod schedule;
pub mod speaker;
