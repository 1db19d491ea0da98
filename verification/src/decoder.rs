//! Streaming decoder: consumes bytes as they arrive, in fragments of
//! any size, and yields one parsed message per complete line, strictly
//! in arrival order.  A trailing incomplete line is retained until more
//! bytes extend it; a line longer than the configured maximum, or one
//! without a command, costs only that line.

use crate::irc::{find_from, parse_line, DecodeError, RawMessage, CR, LF};
use vstd::prelude::*;
use vstd::slice::{slice_subrange, slice_to_vec};

verus! {

/// A line terminator's CR, when present, is not part of the line.
pub open spec fn strip_cr(line: Seq<u8>) -> Seq<u8> {
    if line.len() > 0 && line[line.len() - 1] == CR {
        line.subrange(0, line.len() - 1)
    } else {
        line
    }
}

/// Append-only byte buffer plus the configured maximum line length.
pub struct Decoder {
    buf: Vec<u8>,
    max_line: usize,
}

impl Decoder {
    /// The bytes delivered so far and not yet consumed as complete lines.
    pub closed spec fn buffered(self) -> Seq<u8> {
        self.buf@
    }

    /// The configured maximum length of one line, terminator excluded.
    pub closed spec fn max_line(self) -> nat {
        self.max_line as nat
    }

    pub fn new(max_line: usize) -> (d: Decoder)
        ensures
            d.buffered() == Seq::<u8>::empty(),
            d.max_line() == max_line,
    {
        Decoder { buf: Vec::new(), max_line }
    }

    /// Deliver one fragment of the stream.  The fragment is appended to
    /// the retained bytes; no line is consumed here, so feeding a line
    /// in any number of parts is the same as feeding it whole.
    pub fn feed(&mut self, data: &[u8])
        ensures
            final(self).buffered() == old(self).buffered() + data@,
            final(self).max_line() == old(self).max_line(),
    {
        let mut i: usize = 0;
        while i < data.len()
            invariant
                0 <= i <= data@.len(),
                self.buf@ == old(self).buf@ + data@.subrange(0, i as int),
                self.max_line == old(self).max_line,
            decreases data@.len() - i,
        {
            self.buf.push(data[i]);
            proof {
                assert(old(self).buf@ + data@.subrange(0, i as int) + seq![data@[i as int]]
                    =~= old(self).buf@ + data@.subrange(0, i + 1));
            }
            i = i + 1;
        }
        proof {
            assert(data@.subrange(0, data@.len() as int) =~= data@);
        }
    }

    /// Consume the first complete line, if there is one.  `None` asks
    /// for more bytes and consumes nothing.  Otherwise the line (its
    /// terminator stripped) is parsed: too long, it is refused with
    /// `LineTooLong`; without a command, with `EmptyMessage`; either
    /// way it is consumed and decoding goes on with the next line.
    pub fn next_message(&mut self) -> (r: Option<Result<RawMessage, DecodeError>>)
        ensures
            final(self).max_line() == old(self).max_line(),
            ({
                let nl = find_from(old(self).buffered(), 0, LF);
                let line = strip_cr(old(self).buffered().subrange(0, nl));
                match r {
                    None => nl == old(self).buffered().len() && final(self).buffered() == old(
                        self,
                    ).buffered(),
                    Some(res) => {
                        &&& nl < old(self).buffered().len()
                        &&& final(self).buffered() == old(self).buffered().subrange(
                            nl + 1,
                            old(self).buffered().len() as int,
                        )
                        &&& match res {
                            Ok(raw) => raw.wf() && line.len() <= old(self).max_line()
                                && parse_line(line) == Some(raw@),
                            Err(DecodeError::LineTooLong) => line.len() > old(self).max_line(),
                            Err(DecodeError::EmptyMessage) => line.len() <= old(self).max_line()
                                && parse_line(line) is None,
                        }
                    },
                }
            }),
    {
        let nl = crate::irc::find_byte(self.buf.as_slice(), 0, LF);
        if nl == self.buf.len() {
            return None;
        }
        let mut line_end: usize = nl;
        if line_end > 0 && self.buf[line_end - 1] == CR {
            line_end = line_end - 1;
        }
        let line = slice_subrange(self.buf.as_slice(), 0, line_end);
        proof {
            assert(line@ =~= strip_cr(self.buf@.subrange(0, nl as int)));
        }
        let res = if line_end > self.max_line {
            Err(DecodeError::LineTooLong)
        } else {
            RawMessage::parse(line)
        };
        let rest = slice_to_vec(slice_subrange(self.buf.as_slice(), nl + 1, self.buf.len()));
        self.buf = rest;
        Some(res)
    }
}

/// Fragmentation: a decoder that is fed `a` and then `b` retains the
/// same bytes as one fed `a + b` at once, whatever it held before; with
/// `feed`'s contract this makes the decoded messages depend only on the
/// concatenation of the delivered fragments, never on how the stream
/// was cut.
pub proof fn lemma_feed_fragments(base: Seq<u8>, a: Seq<u8>, b: Seq<u8>)
    ensures
        (base + a) + b == base + (a + b),
{
    assert((base + a) + b =~= base + (a + b));
}

} // verus!
