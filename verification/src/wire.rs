//! The tagged wire protocol: one leading byte selects whether a payload is
//! display data read from the serial device or an audio packet.

use vstd::prelude::*;

verus! {

/// Byte that ends every frame on the serial line.
pub const SLIP_END: u8 = 0xc0;

/// Byte that opens an escape pair inside a frame.
pub const SLIP_ESC: u8 = 0xdb;

/// Second byte of the pair that stands for END.
pub const SLIP_ESC_END: u8 = 0xdc;

/// Second byte of the pair that stands for ESC.
pub const SLIP_ESC_ESC: u8 = 0xdd;

/// Tag of a message that carries display data read from the device.
pub const TAG_SERIAL: u8 = 0x53;

/// Tag of a message that carries one encoded audio packet.
pub const TAG_AUDIO: u8 = 0x41;

/// `payload` with the one-byte `tag` in front of it.
pub open spec fn tagged(tag: u8, payload: Seq<u8>) -> Seq<u8> {
    seq![tag] + payload
}

/// Builds the message that carries `payload` under `tag`.
pub fn tag_message(tag: u8, payload: &[u8]) -> (msg: Vec<u8>)
    ensures
        msg@ == tagged(tag, payload@),
{
    let mut msg: Vec<u8> = Vec::new();
    msg.push(tag);
    msg.extend_from_slice(payload);
    msg
}

} // verus!
