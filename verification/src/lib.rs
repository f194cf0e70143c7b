//! Bridge logic for a tracker on a serial line and its viewers on the
//! network.
//!
//! On the bridge's side: the reassembly of the serial byte stream and the
//! decisions of the serial link, the queue between the audio input and the
//! rate converter, the hub that fans messages out, and the state machine
//! of a client connection. On the viewer's side: the decoder that turns
//! display messages into drawing operations, the jitter buffer in front of
//! the audio output, and the state of the keys. Devices, sockets, codecs
//! and clocks are the caller's; what is decided about them is decided
//! here, and proved.

pub mod audio;
pub mod capture;
pub mod codec;
pub mod connection;
pub mod hub;
pub mod input;
pub mod jitter;
pub mod link;
pub mod parser;
pub mod queue;
pub mod resample;
pub mod slip;
pub mod wire;
