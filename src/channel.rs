use std::collections::VecDeque;
use vstd::prelude::*;

verus! {

/// The error a send reports once the channel has been closed; it hands the
/// rejected item back to the caller.
pub struct SendError<T>(pub T);

/// What a non-blocking receive observes.
pub enum Recv<T> {
    /// The oldest pending item, now owned by the receiver.
    Item(T),
    /// Nothing pending, but senders may still deliver.
    Empty,
    /// The channel is closed: nothing will ever be delivered again.
    Closed,
}

/// An unbounded first-in first-out channel of work items.
///
/// Items are delivered in the order they were sent, each to exactly one
/// receiver. Closing the channel discards whatever was still pending.
pub struct Channel<T> {
    pending: VecDeque<T>,
    open: bool,
}

impl<T> Channel<T> {
    /// The items sent but not yet received, oldest first.
    pub closed spec fn pending(&self) -> Seq<T> {
        self.pending@
    }

    pub closed spec fn is_open(&self) -> bool {
        self.open
    }

    /// A closed channel holds nothing.
    pub open spec fn wf(&self) -> bool {
        !self.is_open() ==> self.pending().len() == 0
    }

    pub fn new() -> (r: Self)
        ensures
            r.wf(),
            r.is_open(),
            r.pending() == Seq::<T>::empty(),
    {
        Channel { pending: VecDeque::new(), open: true }
    }

    pub fn is_closed(&self) -> (r: bool)
        ensures
            r == !self.is_open(),
    {
        !self.open
    }

    pub fn len(&self) -> (r: usize)
        ensures
            r == self.pending().len(),
    {
        self.pending.len()
    }

    /// Appends `item` behind everything pending; never waits for a receiver.
    /// Fails, giving the item back, once the channel is closed.
    pub fn send(&mut self, item: T) -> (r: Result<(), SendError<T>>)
        requires
            old(self).wf(),
        ensures
            final(self).wf(),
            final(self).is_open() == old(self).is_open(),
            old(self).is_open() ==> r is Ok && final(self).pending() == old(self).pending().push(item),
            !old(self).is_open() ==> r == Err::<(), SendError<T>>(SendError(item))
                && final(self).pending() == old(self).pending(),
    {
        if self.open {
            self.pending.push_back(item);
            Ok(())
        } else {
            Err(SendError(item))
        }
    }

    /// Takes the oldest pending item, if any.
    pub fn try_recv(&mut self) -> (r: Recv<T>)
        requires
            old(self).wf(),
        ensures
            final(self).wf(),
            final(self).is_open() == old(self).is_open(),
            match r {
                Recv::Item(x) => old(self).pending().len() > 0
                    && x == old(self).pending()[0]
                    && final(self).pending() == old(self).pending().drop_first(),
                Recv::Empty => old(self).is_open() && old(self).pending().len() == 0
                    && final(self).pending() == old(self).pending(),
                Recv::Closed => !old(self).is_open()
                    && final(self).pending() == old(self).pending(),
            },
    {
        if !self.open {
            return Recv::Closed;
        }
        match self.pending.pop_front() {
            Some(x) => {
                assert(self.pending@ =~= old(self).pending@.drop_first());
                Recv::Item(x)
            },
            None => Recv::Empty,
        }
    }

    /// Closes the channel and returns the items that were still pending,
    /// oldest first; they will never be delivered.
    pub fn close(&mut self) -> (r: Vec<T>)
        requires
            old(self).wf(),
        ensures
            final(self).wf(),
            !final(self).is_open(),
            final(self).pending().len() == 0,
            r@ == old(self).pending(),
    {
        let mut out: Vec<T> = Vec::new();
        while self.pending.len() > 0
            invariant
                out@ + self.pending@ == old(self).pending@,
            decreases self.pending@.len(),
        {
            let x = self.pending.pop_front();
            match x {
                Some(v) => {
                    out.push(v);
                },
                None => {},
            }
        }
        self.open = false;
        out
    }
}

} // verus!
