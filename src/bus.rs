use vstd::prelude::*;

verus! {

/// An event carried from the acquisition side to the presentation side.
pub enum ThreadMessage<T> {
    Error(String),
    Warning(String),
    Info(String),
    /// A sample for whichever channel is currently active.
    PlotPoint(T),
    /// A sample for the channel with the given identifier.
    PlotOnLine(String, T),
}

/// Why an event could not be sent.
#[derive(Clone, Copy, Debug, PartialEq, Eq, Structural)]
pub enum BusError {
    /// The consuming side is gone.
    ChannelClosed,
}

/// A first-in first-out queue of events between one producer and one
/// consumer. It remembers, as ghost state, every event it accepted and every
/// event it handed out.
pub struct Bus<T> {
    queue: Vec<ThreadMessage<T>>,
    closed: bool,
    accepted: Ghost<Seq<ThreadMessage<T>>>,
    handed_out: Ghost<Seq<ThreadMessage<T>>>,
}

impl<T> Bus<T> {
    /// The events waiting to be drained, oldest first.
    pub closed spec fn pending(&self) -> Seq<ThreadMessage<T>> {
        self.queue@
    }

    /// Every event the bus accepted, in sending order.
    pub closed spec fn sent(&self) -> Seq<ThreadMessage<T>> {
        self.accepted@
    }

    /// Every event drained so far, in the order handed out.
    pub closed spec fn delivered(&self) -> Seq<ThreadMessage<T>> {
        self.handed_out@
    }

    /// Whether the consuming side has closed the bus.
    pub closed spec fn is_closed(&self) -> bool {
        self.closed
    }

    /// What was delivered, followed by what is pending, is what was sent.
    pub closed spec fn wf(&self) -> bool {
        self.handed_out@ + self.queue@ == self.accepted@
    }

    /// An open bus with nothing sent.
    pub fn new() -> (r: Self)
        ensures
            r.wf(),
            !r.is_closed(),
            r.sent() == Seq::<ThreadMessage<T>>::empty(),
            r.delivered() == Seq::<ThreadMessage<T>>::empty(),
            r.pending() == Seq::<ThreadMessage<T>>::empty(),
    {
        let r = Bus {
            queue: Vec::new(),
            closed: false,
            accepted: Ghost(Seq::empty()),
            handed_out: Ghost(Seq::empty()),
        };
        assert(r.handed_out@ + r.queue@ =~= r.accepted@);
        r
    }

    /// Enqueues `event` behind those already pending; fails, enqueueing
    /// nothing, once the bus is closed.
    pub fn send(&mut self, event: ThreadMessage<T>) -> (r: Result<(), BusError>)
        requires
            old(self).wf(),
        ensures
            final(self).wf(),
            final(self).is_closed() == old(self).is_closed(),
            final(self).delivered() == old(self).delivered(),
            old(self).is_closed() ==> r == Err::<(), BusError>(BusError::ChannelClosed)
                && final(self).sent() == old(self).sent() && final(self).pending() == old(
                self,
            ).pending(),
            !old(self).is_closed() ==> r is Ok && final(self).sent() == old(self).sent().push(event)
                && final(self).pending() == old(self).pending().push(event),
    {
        if self.closed {
            return Err(BusError::ChannelClosed);
        }
        let ghost e = event;
        self.queue.push(event);
        self.accepted = Ghost(self.accepted@.push(e));
        assert(self.handed_out@ + self.queue@ =~= self.accepted@);
        Ok(())
    }

    /// Removes and returns every pending event, oldest first; empty when
    /// nothing is pending. Never waits.
    pub fn drain(&mut self) -> (r: Vec<ThreadMessage<T>>)
        requires
            old(self).wf(),
        ensures
            final(self).wf(),
            r@ == old(self).pending(),
            final(self).pending() == Seq::<ThreadMessage<T>>::empty(),
            final(self).sent() == old(self).sent(),
            final(self).delivered() == old(self).delivered() + r@,
            final(self).is_closed() == old(self).is_closed(),
    {
        let mut out: Vec<ThreadMessage<T>> = Vec::new();
        std::mem::swap(&mut self.queue, &mut out);
        self.handed_out = Ghost(self.handed_out@ + out@);
        assert(self.handed_out@ + self.queue@ =~= self.accepted@);
        out
    }

    /// Marks the consuming side as gone: later sends fail.
    pub fn close(&mut self)
        requires
            old(self).wf(),
        ensures
            final(self).wf(),
            final(self).is_closed(),
            final(self).sent() == old(self).sent(),
            final(self).delivered() == old(self).delivered(),
            final(self).pending() == old(self).pending(),
    {
        self.closed = true;
    }

    /// Whether the bus is closed.
    pub fn closed(&self) -> (r: bool)
        ensures
            r == self.is_closed(),
    {
        self.closed
    }

    /// Over any run of sends and drains, the drained batches, one after the
    /// other, are the sent events in sending order, up to what is still
    /// pending.
    pub proof fn lemma_delivered_in_order(&self)
        requires
            self.wf(),
        ensures
            self.delivered().len() <= self.sent().len(),
            self.delivered() == self.sent().take(self.delivered().len() as int),
            self.pending() == self.sent().skip(self.delivered().len() as int),
    {
        let d = self.handed_out@;
        assert(d =~= (d + self.queue@).take(d.len() as int));
        assert(self.queue@ =~= (d + self.queue@).skip(d.len() as int));
    }
}

} // verus!
