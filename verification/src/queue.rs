use vstd::prelude::*;

use std::collections::VecDeque;

verus! {

/// A first-in first-out queue of byte frames, one per packet.
pub struct ByteQueue {
    inner: VecDeque<Vec<u8>>,
}

impl View for ByteQueue {
    type V = Seq<Seq<u8>>;

    closed spec fn view(&self) -> Seq<Seq<u8>> {
        self.inner@.map_values(|v: Vec<u8>| v@)
    }
}

impl ByteQueue {
    /// An empty queue.
    pub fn new() -> (q: ByteQueue)
        ensures
            q@ == Seq::<Seq<u8>>::empty(),
    {
        let q = ByteQueue { inner: VecDeque::new() };
        assert(q@ =~= Seq::<Seq<u8>>::empty());
        q
    }

    /// Appends a frame at the back.
    pub fn push(&mut self, data: Vec<u8>)
        ensures
            final(self)@ == old(self)@.push(data@),
    {
        self.inner.push_back(data);
        assert(self@ =~= old(self)@.push(data@));
    }

    /// Takes the frame at the front, if there is one.
    pub fn pop(&mut self) -> (r: Option<Vec<u8>>)
        ensures
            old(self)@.len() == 0 ==> r is None && final(self)@ == old(self)@,
            old(self)@.len() > 0 ==> r is Some && r->0@ == old(self)@[0] && final(self)@
                == old(self)@.drop_first(),
    {
        let r = self.inner.pop_front();
        assert(self@ =~= if old(self)@.len() == 0 {
            old(self)@
        } else {
            old(self)@.drop_first()
        });
        r
    }

    /// Length of the frame at the front, if there is one.
    pub fn front_len(&self) -> (r: Option<usize>)
        ensures
            self@.len() == 0 ==> r is None,
            self@.len() > 0 ==> (r matches Some(n) && n == self@[0].len()),
    {
        if self.inner.len() == 0 {
            None
        } else {
            Some(self.inner[0].len())
        }
    }

    /// Number of frames waiting.
    pub fn len(&self) -> (n: usize)
        ensures
            n == self@.len(),
    {
        self.inner.len()
    }
}

/// What a queue holds after a push.
pub open spec fn pushed(q: Seq<Seq<u8>>, x: Seq<u8>) -> Seq<Seq<u8>> {
    q.push(x)
}

/// What a pop takes from a queue, and what it leaves.
pub open spec fn popped(q: Seq<Seq<u8>>) -> (Option<Seq<u8>>, Seq<Seq<u8>>) {
    if q.len() == 0 {
        (None, q)
    } else {
        (Some(q[0]), q.drop_first())
    }
}

/// First in, first out: popping after a push gives the oldest frame, and the
/// pushed frame comes out only after every frame that was queued before it.
pub proof fn lemma_fifo(q: Seq<Seq<u8>>, x: Seq<u8>)
    ensures
        popped(pushed(q, x)).0 == Some(if q.len() == 0 {
            x
        } else {
            q[0]
        }),
        q.len() > 0 ==> popped(pushed(q, x)).1 == pushed(popped(q).1, x),
        q.len() == 0 ==> popped(pushed(q, x)).1 == q,
{
    if q.len() > 0 {
        assert(q.push(x).drop_first() =~= q.drop_first().push(x));
    } else {
        assert(q.push(x).drop_first() =~= q);
    }
}

} // verus!
