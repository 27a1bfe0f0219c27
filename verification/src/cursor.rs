//! Cutting downloaded chunks down to the bytes that were asked for.
use vstd::prelude::*;

verus! {

/// Where a stream stands: what to drop off its first chunk, and how much is still owed.
#[derive(Debug, PartialEq)]
pub struct StreamCursor {
    pub first: bool,
    pub intra_chunk_skip: usize,
    pub remaining: Option<u64>,
}

/// What a `StreamCursor` says.
pub struct Cursor {
    pub first: bool,
    pub skip: nat,
    pub remaining: Option<nat>,
}

impl View for StreamCursor {
    type V = Cursor;

    open spec fn view(&self) -> Cursor {
        Cursor {
            first: self.first,
            skip: self.intra_chunk_skip as nat,
            remaining: match self.remaining {
                Some(r) => Some(r as nat),
                None => None,
            },
        }
    }
}

/// A stream that has not begun.
pub open spec fn opening(skip: nat, length: Option<nat>) -> Cursor {
    Cursor { first: true, skip, remaining: length }
}

/// Bytes are still owed, or may be.
pub open spec fn unfinished(c: Cursor) -> bool {
    c.remaining is None || c.remaining->0 > 0
}

/// A chunk without what the first one has too many of.
pub open spec fn skipped(c: Cursor, chunk: Seq<u8>) -> Seq<u8> {
    if c.first && c.skip <= chunk.len() {
        chunk.skip(c.skip as int)
    } else {
        chunk
    }
}

/// The part of a chunk that is sent.
pub open spec fn sent(c: Cursor, chunk: Seq<u8>) -> Seq<u8> {
    let tail = skipped(c, chunk);
    if c.remaining is Some && c.remaining->0 < tail.len() {
        tail.take(c.remaining->0 as int)
    } else {
        tail
    }
}

/// Where the stream stands after a chunk.
pub open spec fn advanced(c: Cursor, chunk: Seq<u8>) -> Cursor {
    Cursor {
        first: false,
        remaining: match c.remaining {
            Some(r) => Some((r - sent(c, chunk).len()) as nat),
            None => None,
        },
        ..c
    }
}

/// All that is sent of a row of chunks.
pub open spec fn streamed(c: Cursor, chunks: Seq<Seq<u8>>) -> Seq<u8>
    decreases chunks.len(),
{
    if chunks.len() == 0 || !unfinished(c) {
        Seq::empty()
    } else {
        sent(c, chunks[0]) + streamed(advanced(c, chunks[0]), chunks.drop_first())
    }
}

impl StreamCursor {
    /// A stream that has not begun.
    pub fn open(intra_chunk_skip: usize, length: Option<u64>) -> (res: Self)
        ensures
            res@ == opening(
                intra_chunk_skip as nat,
                match length {
                    Some(n) => Some(n as nat),
                    None => None,
                },
            ),
    {
        StreamCursor { first: true, intra_chunk_skip, remaining: length }
    }

    /// Whether another chunk is wanted.
    pub fn wants_more(&self) -> (res: bool)
        ensures
            res == unfinished(self@),
    {
        match self.remaining {
            Some(r) => r > 0,
            None => true,
        }
    }

    /// Cuts the next chunk down to what is sent of it.
    pub fn accept(&mut self, bytes: Vec<u8>) -> (res: Vec<u8>)
        ensures
            res@ == sent(old(self)@, bytes@),
            final(self)@ == advanced(old(self)@, bytes@),
            !final(self).first,
            match old(self).remaining {
                Some(r) => res@.len() <= r && final(self).remaining == Some(
                    (r - res@.len()) as u64,
                ),
                None => final(self).remaining is None,
            },
    {
        let ghost chunk = bytes@;
        let mut bytes = bytes;
        if self.first && self.intra_chunk_skip > 0 && self.intra_chunk_skip <= bytes.len() {
            let tail = bytes.split_off(self.intra_chunk_skip);
            bytes = tail;
        }
        assert(bytes@ =~= skipped(old(self)@, chunk));
        self.first = false;
        if let Some(r) = self.remaining {
            if bytes.len() as u64 > r {
                bytes.truncate(r as usize);
            }
            self.remaining = Some(r - bytes.len() as u64);
        }
        bytes
    }
}

proof fn lemma_streamed_in_midstream(c: Cursor, chunks: Seq<Seq<u8>>)
    requires
        !c.first || c.skip == 0,
    ensures
        streamed(c, chunks) == match c.remaining {
            Some(r) => if r < chunks.flatten().len() {
                chunks.flatten().take(r as int)
            } else {
                chunks.flatten()
            },
            None => chunks.flatten(),
        },
    decreases chunks.len(),
{
    if chunks.len() == 0 {
        assert(chunks.flatten() =~= Seq::empty());
    } else {
        let head = chunks[0];
        let tail = chunks.drop_first().flatten();
        assert(chunks.flatten() == head + tail);
        assert(skipped(c, head) =~= head);
        lemma_streamed_in_midstream(advanced(c, head), chunks.drop_first());
        match c.remaining {
            Some(r) => {
                if r == 0 {
                    if r < chunks.flatten().len() {
                        assert(chunks.flatten().take(0) =~= Seq::empty());
                    } else {
                        assert(chunks.flatten() =~= Seq::empty());
                    }
                } else if r < head.len() {
                    assert(head.take(r as int) + tail.take(0) =~= (head + tail).take(r as int));
                    assert(tail.take(0) =~= Seq::empty());
                    assert(streamed(advanced(c, head), chunks.drop_first()) =~= Seq::empty());
                    assert(head.take(r as int) + Seq::<u8>::empty() =~= (head + tail).take(
                        r as int,
                    ));
                } else {
                    if r < (head + tail).len() {
                        assert(head + tail.take(r - head.len()) =~= (head + tail).take(r as int));
                    }
                }
            },
            None => {},
        }
    }
}

/// A stream of `length` bytes from `start` on sends exactly those bytes of the content, when
/// the chunks continue the content from the last whole number of chunks before `start`, and
/// the first of them reaches `start`.
pub proof fn law_stream_sends_the_range(
    content: Seq<u8>,
    chunk_size: nat,
    chunks: Seq<Seq<u8>>,
    start: nat,
    length: nat,
)
    requires
        chunk_size > 0,
        start + length <= content.len(),
        chunks.flatten() == content.skip((start / chunk_size * chunk_size) as int),
        chunks.len() > 0 ==> start % chunk_size <= chunks[0].len(),
    ensures
        streamed(opening(start % chunk_size, Some(length)), chunks) == content.subrange(
            start as int,
            (start + length) as int,
        ),
{
    let skip = start % chunk_size;
    let base = start / chunk_size * chunk_size;
    assert(base + skip == start) by (nonlinear_arith)
        requires
            chunk_size > 0,
            skip == start % chunk_size,
            base == start / chunk_size * chunk_size,
    ;
    let c = opening(skip, Some(length));
    let all = chunks.flatten();
    assert(all.len() == content.len() - base);
    if length == 0 {
        assert(content.subrange(start as int, start as int) =~= Seq::empty());
    } else if chunks.len() == 0 {
        assert(all =~= Seq::empty());
    } else {
        let head = chunks[0];
        let rest = chunks.drop_first();
        assert(all == head + rest.flatten());
        let next = advanced(c, head);
        lemma_streamed_in_midstream(next, rest);
        let tail = head.skip(skip as int);
        assert(skipped(c, head) == tail);
        let wanted = content.subrange(start as int, (start + length) as int);
        assert(tail + rest.flatten() =~= all.skip(skip as int));
        assert(wanted =~= (tail + rest.flatten()).take(length as int));
        if length < tail.len() {
            assert(streamed(next, rest) =~= Seq::empty());
            assert(sent(c, head) + Seq::<u8>::empty() =~= wanted);
        } else {
            let r = (length - tail.len()) as nat;
            if r < rest.flatten().len() {
                assert(tail + rest.flatten().take(r as int) =~= wanted);
            } else {
                assert(tail + rest.flatten() =~= wanted);
            }
        }
    }
}

/// A stream of unknown length sends the chunks as they come.
pub proof fn law_stream_of_unknown_length_sends_everything(chunks: Seq<Seq<u8>>)
    ensures
        streamed(opening(0, None), chunks) == chunks.flatten(),
{
    lemma_streamed_in_midstream(opening(0, None), chunks);
}

/// A stream sends no more than it owes, whatever the chunks.
pub proof fn law_stream_never_sends_too_much(c: Cursor, chunks: Seq<Seq<u8>>)
    requires
        c.remaining is Some,
    ensures
        streamed(c, chunks).len() <= c.remaining->0,
    decreases chunks.len(),
{
    if chunks.len() > 0 && unfinished(c) {
        law_stream_never_sends_too_much(advanced(c, chunks[0]), chunks.drop_first());
    }
}

/// What is sent of a chunk is a stretch of it: behind what the first chunk has too many of, and
/// as long as anything is left and owed. What was sent is owed no more.
pub proof fn law_sent_is_a_stretch_of_the_chunk(c: Cursor, chunk: Seq<u8>)
    ensures
        ({
            let from: int = if c.first && c.skip <= chunk.len() {
                c.skip as int
            } else {
                0
            };
            let s = sent(c, chunk);
            &&& s == chunk.subrange(from, from + s.len())
            &&& c.remaining is None ==> from + s.len() == chunk.len()
            &&& c.remaining matches Some(r) ==> s.len() <= r && (s.len() == r || from + s.len()
                == chunk.len())
            &&& c.remaining matches Some(r) ==> advanced(c, chunk).remaining == Some(
                (r - s.len()) as nat,
            )
            &&& c.remaining is None ==> advanced(c, chunk).remaining is None
            &&& !advanced(c, chunk).first
            &&& unfinished(c) <==> c.remaining != Some(0nat)
        }),
{
    let from: int = if c.first && c.skip <= chunk.len() {
        c.skip as int
    } else {
        0
    };
    let s = sent(c, chunk);
    assert(chunk.skip(0) =~= chunk);
    assert(skipped(c, chunk) =~= chunk.skip(from));
    assert(s =~= chunk.subrange(from, from + s.len()));
}

} // verus!
