//! The bounded request channel between the ingestion actor and the
//! processing actor.
//!
//! A send on a full channel is refused and hands the value back: the
//! producer suspends and retries instead of dropping the event.  Receiving
//! takes the oldest element, so requests are handled in exact enqueue order.

use vstd::prelude::*;

verus! {

/// A bounded first-in first-out queue.
pub struct BoundedChannel<T> {
    buf: Vec<T>,
    cap: usize,
}

impl<T> View for BoundedChannel<T> {
    type V = Seq<T>;

    closed spec fn view(&self) -> Seq<T> {
        self.buf@
    }
}

impl<T> BoundedChannel<T> {
    /// The fixed capacity the channel was created with.
    pub closed spec fn capacity(&self) -> nat {
        self.cap as nat
    }

    /// The channel never holds more than its capacity.
    pub open spec fn wf(&self) -> bool {
        self@.len() <= self.capacity()
    }

    /// An empty channel of capacity `cap`.
    pub fn new(cap: usize) -> (c: BoundedChannel<T>)
        requires
            cap >= 1,
        ensures
            c@ == Seq::<T>::empty(),
            c.capacity() == cap,
            c.wf(),
    {
        BoundedChannel { buf: Vec::new(), cap }
    }

    pub fn len(&self) -> (n: usize)
        ensures
            n == self@.len(),
    {
        self.buf.len()
    }

    /// Appends `v` when there is room.  On a full channel the value comes
    /// back unchanged in `Err` and the contents stay as they were: the
    /// caller suspends; no element is ever dropped.
    pub fn try_send(&mut self, v: T) -> (r: Result<(), T>)
        requires
            old(self).wf(),
        ensures
            final(self).capacity() == old(self).capacity(),
            final(self).wf(),
            if old(self)@.len() < old(self).capacity() {
                r is Ok && final(self)@ == old(self)@.push(v)
            } else {
                r == Err::<(), T>(v) && final(self)@ == old(self)@
            },
    {
        if self.buf.len() < self.cap {
            self.buf.push(v);
            Ok(())
        } else {
            Err(v)
        }
    }

    /// Takes the oldest element; `None` on an empty channel.
    pub fn try_recv(&mut self) -> (r: Option<T>)
        requires
            old(self).wf(),
        ensures
            final(self).capacity() == old(self).capacity(),
            final(self).wf(),
            if old(self)@.len() == 0 {
                r is None && final(self)@ == old(self)@
            } else {
                r == Some(old(self)@[0]) && final(self)@ == old(self)@.drop_first()
            },
    {
        if self.buf.len() == 0 {
            None
        } else {
            let v = self.buf.remove(0);
            proof {
                assert(self.buf@ =~= old(self).buf@.drop_first());
            }
            Some(v)
        }
    }
}

/// The contents of a channel after every element of `xs` was accepted in
/// order, mirroring one `try_send` per element.
pub open spec fn enqueue_all<T>(q: Seq<T>, xs: Seq<T>) -> Seq<T>
    decreases xs.len(),
{
    if xs.len() == 0 {
        q
    } else {
        enqueue_all(q.push(xs[0]), xs.drop_first())
    }
}

/// Sending a sequence appends it: nothing is reordered and nothing is lost.
pub proof fn lemma_enqueue_all_appends<T>(q: Seq<T>, xs: Seq<T>)
    ensures
        enqueue_all(q, xs) == q + xs,
    decreases xs.len(),
{
    if xs.len() == 0 {
        assert(enqueue_all(q, xs) =~= q + xs);
    } else {
        lemma_enqueue_all_appends(q.push(xs[0]), xs.drop_first());
        assert(q.push(xs[0]) + xs.drop_first() =~= q + xs);
    }
}

/// First-in first-out: after a burst of `xs` accepted sends into an empty
/// channel and `i` receives, the next receive hands out exactly `xs[i]` —
/// the consumer sees the requests in their exact enqueue order.
pub proof fn lemma_fifo_order<T>(xs: Seq<T>, i: int)
    requires
        0 <= i < xs.len(),
    ensures
        enqueue_all(Seq::<T>::empty(), xs).skip(i)[0] == xs[i],
{
    lemma_enqueue_all_appends(Seq::<T>::empty(), xs);
    assert(enqueue_all(Seq::<T>::empty(), xs) =~= xs);
}

} // verus!
