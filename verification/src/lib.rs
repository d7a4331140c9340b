//! Receive-only decoding of a PS/2 keyboard link: bit sampling on clock
//! edges, a fixed-capacity byte queue between the edge handler and the
//! consumer, and scancode translation for the outbound byte sink.

pub mod pipeline;
pub mod queue;
pub mod ring;
pub mod sampler;
pub mod translator;
