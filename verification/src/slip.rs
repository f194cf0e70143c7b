//! Reassembly of the serial byte stream into END-terminated chunks.
//!
//! Bytes arrive in pieces of any size. Whatever lies before the last END
//! byte seen so far is ready to be sent on, in one chunk that may hold
//! several frames; what lies behind it waits for the next END.

use vstd::prelude::*;
use crate::wire::SLIP_END;

verus! {

/// How many leading bytes of `buf` are ready: the position behind its last
/// END byte, or 0 where it holds none.
pub open spec fn ready_len(buf: Seq<u8>) -> int
    decreases buf.len(),
{
    if buf.len() == 0 {
        0
    } else if buf.last() == SLIP_END {
        buf.len() as int
    } else {
        ready_len(buf.drop_last())
    }
}

/// What one piece of input does to a reassembler that holds `residual`:
/// the bytes that become ready, and the bytes that stay behind.
pub open spec fn fed(residual: Seq<u8>, piece: Seq<u8>) -> (Seq<u8>, Seq<u8>) {
    let buf = residual + piece;
    (buf.take(ready_len(buf)), buf.skip(ready_len(buf)))
}

/// What a run of pieces does, one after the other: all the bytes that
/// became ready, in order, and the bytes that stay behind at the end.
pub open spec fn fed_all(residual: Seq<u8>, pieces: Seq<Seq<u8>>) -> (Seq<u8>, Seq<u8>)
    decreases pieces.len(),
{
    if pieces.len() == 0 {
        (Seq::empty(), residual)
    } else {
        let first = fed(residual, pieces[0]);
        let others = fed_all(first.1, pieces.skip(1));
        (first.0 + others.0, others.1)
    }
}

/// The pieces laid end to end.
pub open spec fn joined(pieces: Seq<Seq<u8>>) -> Seq<u8>
    decreases pieces.len(),
{
    if pieces.len() == 0 {
        Seq::empty()
    } else {
        pieces[0] + joined(pieces.skip(1))
    }
}

/// `ready_len` lies within the buffer, stands behind an END byte unless it
/// is 0, and no END byte follows it.
pub proof fn lemma_ready_len_marks_last_end(buf: Seq<u8>)
    ensures
        0 <= ready_len(buf) <= buf.len(),
        ready_len(buf) > 0 ==> buf[ready_len(buf) - 1] == SLIP_END,
        forall|k: int| ready_len(buf) <= k < buf.len() ==> buf[k] != SLIP_END,
    decreases buf.len(),
{
    if buf.len() > 0 && buf.last() != SLIP_END {
        let front = buf.drop_last();
        lemma_ready_len_marks_last_end(front);
        assert forall|k: int| ready_len(buf) <= k < buf.len() implies buf[k] != SLIP_END by {
            if k < front.len() {
                assert(buf[k] == front[k]);
            }
        }
    }
}

/// A position that stands behind an END byte, or at 0, and has no END byte
/// behind it is `ready_len`.
pub proof fn lemma_ready_len_unique(buf: Seq<u8>, n: int)
    requires
        0 <= n <= buf.len(),
        n > 0 ==> buf[n - 1] == SLIP_END,
        forall|k: int| n <= k < buf.len() ==> buf[k] != SLIP_END,
    ensures
        ready_len(buf) == n,
    decreases buf.len(),
{
    if buf.len() > 0 && buf.last() != SLIP_END {
        lemma_ready_len_unique(buf.drop_last(), n);
    }
}

/// Feeding a piece loses and repeats nothing: what became ready followed
/// by what stays behind is the old residual followed by the piece. What
/// stays behind holds no END byte.
pub proof fn lemma_fed_keeps_every_byte(residual: Seq<u8>, piece: Seq<u8>)
    ensures
        fed(residual, piece).0 + fed(residual, piece).1 == residual + piece,
        ready_len(fed(residual, piece).1) == 0,
{
    let buf = residual + piece;
    lemma_ready_len_marks_last_end(buf);
    lemma_ready_len_unique(buf.skip(ready_len(buf)), 0);
}

/// Feeding a piece and then more bytes makes ready what feeding all of
/// them at once makes ready, and leaves the same bytes behind.
proof fn lemma_fed_twice(residual: Seq<u8>, piece: Seq<u8>, more: Seq<u8>)
    ensures
        fed(residual, piece + more).0 == fed(residual, piece).0 + fed(
            fed(residual, piece).1,
            more,
        ).0,
        fed(residual, piece + more).1 == fed(fed(residual, piece).1, more).1,
{
    let buf = residual + piece;
    let n = ready_len(buf);
    let rest = buf.skip(n);
    let later = rest + more;
    let m = ready_len(later);
    let whole = residual + (piece + more);
    lemma_ready_len_marks_last_end(buf);
    lemma_ready_len_marks_last_end(later);
    assert forall|k: int| n + m <= k < whole.len() implies whole[k] != SLIP_END by {
        assert(whole[k] == later[k - n]);
    }
    lemma_ready_len_unique(whole, n + m);
}

/// However a byte stream is chopped into pieces, a reassembler whose
/// residual holds no END byte makes ready, piece by piece, exactly the
/// bytes that it would make ready if it were handed the whole stream at
/// once, and the same bytes stay behind.
pub proof fn lemma_chopping_is_invisible(residual: Seq<u8>, pieces: Seq<Seq<u8>>)
    requires
        ready_len(residual) == 0,
    ensures
        fed_all(residual, pieces) == fed(residual, joined(pieces)),
    decreases pieces.len(),
{
    if pieces.len() > 0 {
        lemma_fed_keeps_every_byte(residual, pieces[0]);
        lemma_chopping_is_invisible(fed(residual, pieces[0]).1, pieces.skip(1));
        lemma_fed_twice(residual, pieces[0], joined(pieces.skip(1)));
    }
}

/// The reassembler: the bytes received behind the last END byte.
pub struct SlipReassembler {
    residual: Vec<u8>,
}

impl View for SlipReassembler {
    type V = Seq<u8>;

    closed spec fn view(&self) -> Seq<u8> {
        self.residual@
    }
}

/// The position behind the last END byte of `buf`, or 0.
pub fn find_ready_len(buf: &[u8]) -> (n: usize)
    ensures
        n == ready_len(buf@),
{
    let mut i: usize = buf.len();
    while i > 0 && buf[i - 1] != SLIP_END
        invariant
            i <= buf@.len(),
            forall|k: int| i <= k < buf@.len() ==> buf@[k] != SLIP_END,
        decreases i,
    {
        i -= 1;
    }
    proof {
        lemma_ready_len_unique(buf@, i as int);
    }
    i
}

impl SlipReassembler {
    /// A reassembler that holds nothing.
    pub fn new() -> (reassembler: Self)
        ensures
            reassembler@ == Seq::<u8>::empty(),
    {
        Self { residual: Vec::new() }
    }

    /// How many bytes wait for their END byte.
    pub fn residual_len(&self) -> (n: usize)
        ensures
            n == self@.len(),
    {
        self.residual.len()
    }

    /// Takes in the next piece of the stream.
    ///
    /// The piece is put behind the residual. Where the result holds an END
    /// byte, everything up to the last one is returned as one chunk and
    /// the rest becomes the residual; else nothing is returned and all of
    /// it is kept.
    pub fn push(&mut self, piece: &[u8]) -> (ready: Option<Vec<u8>>)
        ensures
            final(self)@ == fed(old(self)@, piece@).1,
            ready_len(final(self)@) == 0,
            match ready {
                Some(chunk) => chunk@.len() > 0 && chunk@ == fed(old(self)@, piece@).0,
                None => fed(old(self)@, piece@).0.len() == 0,
            },
    {
        self.residual.extend_from_slice(piece);
        assert(self.residual@ =~= old(self)@ + piece@);
        let n = find_ready_len(self.residual.as_slice());
        proof {
            lemma_ready_len_marks_last_end(self.residual@);
            lemma_fed_keeps_every_byte(old(self)@, piece@);
        }
        if n == 0 {
            return None;
        }
        let mut chunk = self.residual.split_off(n);
        std::mem::swap(&mut chunk, &mut self.residual);
        Some(chunk)
    }
}

} // verus!
