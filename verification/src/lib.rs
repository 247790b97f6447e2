//! Core logic of a hub that multiplexes one host link and up to 32 peripheral
//! slots on a shared serial bus: the 8-byte event frame, bounded queues, the
//! per-slot polling protocol and the angle sensor's negotiation and shaping.

pub mod bytes;
pub mod negicon_event;
pub mod ringbuf;
pub mod downstream;
pub mod mlx_downstream;
pub mod upstream;
pub mod waveform;
pub mod scheduler;
pub mod programs;
