use vstd::prelude::*;
use std::collections::VecDeque;
use bytes::Bytes;
use crate::chunk::contents;

verus! {

/// How many chunks may wait between the producer and the worker.
pub const CAPACITY: usize = 100;

/// The bounded first-in, first-out queue between the one producer and the
/// one worker.
pub struct ChunkQueue {
    chunks: VecDeque<Bytes>,
    closed: bool,
}

impl ChunkQueue {
    /// The contents of the waiting chunks, oldest first.
    pub closed spec fn pending(&self) -> Seq<Seq<u8>> {
        contents(self.chunks@)
    }

    /// Whether the producer has said that no more chunks will come.
    pub closed spec fn shut(&self) -> bool {
        self.closed
    }

    /// The queue never holds more than its capacity.
    pub open spec fn wf(&self) -> bool {
        self.pending().len() <= CAPACITY
    }

    /// An open queue with nothing in it.
    pub fn new() -> (queue: ChunkQueue)
        ensures
            queue.wf(),
            queue.pending() == Seq::<Seq<u8>>::empty(),
            !queue.shut(),
    {
        let queue = ChunkQueue { chunks: VecDeque::new(), closed: false };
        assert(queue.pending() =~= Seq::<Seq<u8>>::empty());
        queue
    }

    pub fn len(&self) -> (n: usize)
        requires
            self.wf(),
        ensures
            n == self.pending().len(),
            n <= CAPACITY,
    {
        self.chunks.len()
    }

    pub fn is_closed(&self) -> (closed: bool)
        ensures
            closed == self.shut(),
    {
        self.closed
    }

    /// Whether one more chunk would have to wait for the worker.
    pub fn is_full(&self) -> (full: bool)
        requires
            self.wf(),
        ensures
            full == (self.pending().len() == CAPACITY),
    {
        self.chunks.len() >= CAPACITY
    }

    /// Puts `chunk` behind the waiting ones where there is room, and hands it
    /// back where the queue is full: the producer has to wait until the
    /// worker has taken a chunk.
    pub fn try_send(&mut self, chunk: Bytes) -> (refused: Option<Bytes>)
        requires
            old(self).wf(),
        ensures
            final(self).wf(),
            final(self).shut() == old(self).shut(),
            old(self).pending().len() < CAPACITY ==> refused.is_none() && final(self).pending()
                == old(self).pending().push(crate::chunk::chunk_bytes(chunk)),
            old(self).pending().len() == CAPACITY ==> refused == Some(chunk) && final(self).pending()
                == old(self).pending(),
    {
        if self.chunks.len() >= CAPACITY {
            Some(chunk)
        } else {
            self.chunks.push_back(chunk);
            assert(self.pending() =~= old(self).pending().push(crate::chunk::chunk_bytes(chunk)));
            None
        }
    }

    /// Takes the oldest waiting chunk, if there is one.
    pub fn recv(&mut self) -> (taken: Option<Bytes>)
        requires
            old(self).wf(),
        ensures
            final(self).wf(),
            final(self).shut() == old(self).shut(),
            match taken {
                Some(chunk) => old(self).pending().len() > 0 && crate::chunk::chunk_bytes(chunk)
                    == old(self).pending().first() && final(self).pending() == old(
                    self,
                ).pending().drop_first(),
                None => old(self).pending().len() == 0 && final(self).pending() == old(
                    self,
                ).pending(),
            },
    {
        let taken = self.chunks.pop_front();
        proof {
            if taken.is_some() {
                assert(self.pending() =~= old(self).pending().drop_first());
            }
        }
        taken
    }

    /// Closes the producer's side: what waits stays, nothing more will come.
    pub fn close(&mut self)
        requires
            old(self).wf(),
        ensures
            final(self).wf(),
            final(self).shut(),
            final(self).pending() == old(self).pending(),
    {
        self.closed = true;
    }
}

} // verus!
