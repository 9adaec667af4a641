//! Realtime voice-control bridge.
//!
//! The bridge reconciles three independently paced activities — hardware
//! audio capture, a streaming transcription session, and a fixed-cadence
//! simulation loop — without blocking the simulation and without losing or
//! reordering audio data.  Captured audio frames arrive on an unbounded
//! transfer queue, are converted to 16-bit linear PCM, and are handed to the
//! transcription link; transcript messages coming back are interpreted into
//! directional control events that adjust the velocities of the host's
//! controllable entities once per tick.
//!
//! The host application that renders, simulates physics and owns the
//! entities is an external collaborator: it calls [`coordinator::drive`]
//! exactly once per tick and performs the actual network transmission of the
//! PCM buffers that `drive` returns.

pub mod command;
pub mod coordinator;
pub mod link;
pub mod pcm;
