//! The state of an unbounded single-consumer FIFO channel: the buffered
//! messages and whether the receiving side is still open. The shared cell, the
//! handle counting and the waker live with the caller; here are the decisions.
use vstd::prelude::*;

verus! {

/// Error of a send on a closed channel: hands the message back.
pub struct SendError<T>(pub T);

impl<T> SendError<T> {
    /// The message that was attempted to be sent.
    pub fn into_inner(self) -> (r: T)
        ensures
            r == self.0,
    {
        self.0
    }
}

/// What polling the receiving side gives.
pub enum Poll<T> {
    Ready(Option<T>),
    Pending,
}

/// Buffered messages, oldest first, and whether the channel still accepts
/// messages.
pub struct ChannelState<T> {
    pub buffer: Vec<T>,
    pub has_receiver: bool,
}

impl<T> ChannelState<T> {
    /// A new, open, empty channel.
    pub fn new() -> (r: ChannelState<T>)
        ensures
            r.buffer@ == Seq::<T>::empty(),
            r.has_receiver,
    {
        ChannelState { buffer: Vec::new(), has_receiver: true }
    }

    /// Queues `item`; on a closed channel hands it back in the error.
    pub fn send(&mut self, item: T) -> (r: Result<(), SendError<T>>)
        ensures
            final(self).has_receiver == old(self).has_receiver,
            old(self).has_receiver ==> r is Ok && final(self).buffer@ == old(self).buffer@.push(item),
            !old(self).has_receiver ==> (r matches Err(e) && e.0 == item && final(self).buffer@ == old(
                self,
            ).buffer@),
    {
        if !self.has_receiver {
            return Err(SendError(item));
        }
        self.buffer.push(item);
        Ok(())
    }

    /// Stops further sends; buffered messages can still be received.
    pub fn close(&mut self)
        ensures
            !final(self).has_receiver,
            final(self).buffer@ == old(self).buffer@,
    {
        self.has_receiver = false;
    }

    /// Whether the channel is closed: no other handle is left (`handles == 1`)
    /// or the receiving side was closed.
    pub fn is_closed(&self, handles: usize) -> (r: bool)
        ensures
            r == (handles == 1 || !self.has_receiver),
    {
        handles == 1 || !self.has_receiver
    }

    /// Takes the oldest buffered message, if any.
    pub fn try_recv(&mut self) -> (r: Option<T>)
        ensures
            final(self).has_receiver == old(self).has_receiver,
            old(self).buffer@.len() == 0 ==> r is None && final(self).buffer@ == old(self).buffer@,
            old(self).buffer@.len() > 0 ==> r == Some(old(self).buffer@[0]) && final(self).buffer@
                == old(self).buffer@.drop_first(),
    {
        if self.buffer.len() == 0 {
            None
        } else {
            Some(self.buffer.remove(0))
        }
    }

    /// Polls for the next message: the oldest buffered one; else, while the
    /// channel is open, the end of the stream when no sender is left
    /// (`handles == 1`) and pending otherwise; the end of the stream on a
    /// closed channel.
    pub fn poll_recv(&mut self, handles: usize) -> (r: Poll<T>)
        ensures
            final(self).has_receiver == old(self).has_receiver,
            old(self).buffer@.len() > 0 ==> r == Poll::Ready(Some(old(self).buffer@[0]))
                && final(self).buffer@ == old(self).buffer@.drop_first(),
            old(self).buffer@.len() == 0 ==> final(self).buffer@ == old(self).buffer@ && (if old(
                self,
            ).has_receiver && handles != 1 {
                r is Pending
            } else {
                r == Poll::<T>::Ready(None)
            }),
    {
        if self.buffer.len() > 0 {
            Poll::Ready(Some(self.buffer.remove(0)))
        } else if self.has_receiver {
            if handles == 1 {
                Poll::Ready(None)
            } else {
                Poll::Pending
            }
        } else {
            Poll::Ready(None)
        }
    }

    /// What dropping the receiving side does: the buffer is emptied and the
    /// channel closed.
    pub fn drop_receiver(&mut self)
        ensures
            !final(self).has_receiver,
            final(self).buffer@ == Seq::<T>::empty(),
    {
        self.buffer = Vec::new();
        self.has_receiver = false;
    }

    /// Whether dropping a sender must wake the receiver: the channel is open
    /// and this is the last sender (`handles == 2`, counting the receiver).
    pub fn sender_drop_wakes(&self, handles: usize) -> (r: bool)
        ensures
            r == (self.has_receiver && handles == 2),
    {
        self.has_receiver && handles == 2
    }
}

/// First in, first out: on an open channel, a message sent behind the
/// buffered ones is received only after all of them, and sending does not
/// change which message is received next.
pub proof fn law_send_then_receive<T>(buffer: Seq<T>, item: T)
    ensures
        buffer.push(item)[0] == (if buffer.len() > 0 { buffer[0] } else { item }),
        buffer.push(item).drop_first() == (if buffer.len() > 0 {
            buffer.drop_first().push(item)
        } else {
            Seq::<T>::empty()
        }),
{
    if buffer.len() > 0 {
        assert(buffer.push(item).drop_first() =~= buffer.drop_first().push(item));
    } else {
        assert(buffer.push(item).drop_first() =~= Seq::<T>::empty());
    }
}

} // verus!
