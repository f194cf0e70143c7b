//! The reassembly rule and the command encoding on a `BytesMut`, the
//! buffer type of framed transports.

use vstd::prelude::*;
use tokio_util::bytes::BytesMut;
use crate::link::{command_bytes, encode_command, ControlCommand};
use crate::slip::{find_ready_len, lemma_ready_len_marks_last_end, ready_len};

verus! {

/// Declares `bytes::BytesMut` as a type whose inside stays hidden: a
/// value of it can be passed on, and what it holds is known only through
/// `buffered`.
#[verifier::external_type_specification]
#[verifier::external_body]
pub struct ExBytesMut(BytesMut);

/// The bytes that a `BytesMut` holds, first to last.
pub uninterp spec fn buffered(buf: BytesMut) -> Seq<u8>;

/// Calls `BytesMut::as_ref`, which hands out the buffer's bytes as a
/// slice.
#[verifier::external_body]
fn bytes_of(buf: &BytesMut) -> (bytes: &[u8])
    ensures
        bytes@ == buffered(*buf),
{
    buf.as_ref()
}

/// Calls `BytesMut::split_to`, which cuts the first `at` bytes off the
/// buffer and returns them; the buffer keeps the rest. It panics where
/// `at` lies behind the buffer's end, so that is left out.
#[verifier::external_body]
fn bytes_split_to(buf: &mut BytesMut, at: usize) -> (head: Vec<u8>)
    requires
        at <= buffered(*old(buf)).len(),
    ensures
        head@ == buffered(*old(buf)).take(at as int),
        buffered(*final(buf)) == buffered(*old(buf)).skip(at as int),
{
    buf.split_to(at).to_vec()
}

/// Calls `BytesMut::extend_from_slice`, which puts `bytes` behind what
/// the buffer holds.
#[verifier::external_body]
fn bytes_extend(buf: &mut BytesMut, bytes: &[u8])
    ensures
        buffered(*final(buf)) == buffered(*old(buf)) + bytes@,
{
    buf.extend_from_slice(bytes)
}

/// Decoder and encoder of the serial line: chunks that end in END come
/// out, commands go in.
pub struct SLIPCodec {}

impl SLIPCodec {
    /// Takes the ready chunk off the front of `src`.
    ///
    /// Where `src` holds an END byte, everything up to the last one is cut
    /// off and returned; else `src` is left as it is and nothing is
    /// returned.
    pub fn decode(&mut self, src: &mut BytesMut) -> (packet: Option<Vec<u8>>)
        ensures
            buffered(*final(src)) == buffered(*old(src)).skip(ready_len(buffered(*old(src)))),
            match packet {
                Some(chunk) => chunk@.len() > 0 && chunk@ == buffered(*old(src)).take(
                    ready_len(buffered(*old(src))),
                ),
                None => ready_len(buffered(*old(src))) == 0,
            },
    {
        let n = find_ready_len(bytes_of(src));
        proof {
            lemma_ready_len_marks_last_end(buffered(*src));
        }
        if n == 0 {
            return None;
        }
        Some(bytes_split_to(src, n))
    }

    /// Puts the bytes of `item` behind what `dst` holds.
    pub fn encode(&mut self, item: ControlCommand, dst: &mut BytesMut)
        ensures
            buffered(*final(dst)) == buffered(*old(dst)) + command_bytes(item),
    {
        let bytes = encode_command(item);
        bytes_extend(dst, bytes.as_slice());
    }
}

} // verus!
