//! Audio bridge core: a bounded byte transport between an audio producer and
//! a voice-call consumer, a software volume control, and the voice-connection
//! state machine driven by operator control messages.

pub mod transport;
pub mod mixer;
pub mod message;
pub mod controller;
pub mod session;
