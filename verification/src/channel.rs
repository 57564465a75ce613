//! The Delivery Channel: the unbounded, ordered queue that carries decoded
//! messages, each with its wire size, from the receive loop to the consumer.
//!
//! The queue itself is an outside lock-free channel; this module holds both
//! of its ends behind one owner and states what the channel's operations do
//! to its contents, oldest first.

use vstd::prelude::*;

use crate::protocol::Message;

verus! {

/// An ordered multi-producer/single-consumer queue of decoded messages and
/// their wire sizes. Holding both halves in one owner keeps the queue alive
/// for as long as the transport lives, so an enqueue can never find the
/// consumer side gone.
#[verifier::external_body]
pub struct DeliveryChannel {
    tx: crossbeam_channel::Sender<(Message, usize)>,
    rx: crossbeam_channel::Receiver<(Message, usize)>,
}

/// What the channel holds, oldest entry first.
pub uninterp spec fn channel_contents(c: DeliveryChannel) -> Seq<(Message, usize)>;

impl DeliveryChannel {
    /// Relies on crossbeam_channel::unbounded: a fresh channel holds nothing.
    #[verifier::external_body]
    pub fn new() -> (c: DeliveryChannel)
        ensures
            channel_contents(c) == Seq::<(Message, usize)>::empty(),
    {
        let (tx, rx) = crossbeam_channel::unbounded();
        DeliveryChannel { tx, rx }
    }

    /// Relies on crossbeam_channel::Sender::try_send: on an unbounded
    /// channel it appends the item, failing only when every receiver is
    /// gone, which cannot happen while this owner holds the receiver; and
    /// on the channel's first-in-first-out order for items from one sender.
    #[verifier::external_body]
    pub fn push(&mut self, m: Message, size: usize)
        ensures
            channel_contents(*final(self)) == channel_contents(*old(self)).push((m, size)),
    {
        let _ = self.tx.try_send((m, size));
    }

    /// Relies on crossbeam_channel::Receiver::try_recv: it takes the oldest
    /// item without blocking, and reports empty rather than waiting.
    #[verifier::external_body]
    pub fn try_pop(&mut self) -> (r: Option<(Message, usize)>)
        ensures
            (match r {
                Some(item) => channel_contents(*old(self)).len() > 0 && item == channel_contents(
                    *old(self),
                )[0] && channel_contents(*final(self)) == channel_contents(*old(self)).drop_first(),
                None => channel_contents(*old(self)).len() == 0 && channel_contents(*final(self))
                    == channel_contents(*old(self)),
            }),
    {
        self.rx.try_recv().ok()
    }

    /// Relies on crossbeam_channel::Receiver::len: how many items wait in
    /// the channel.
    #[verifier::external_body]
    pub fn len(&self) -> (r: usize)
        ensures
            r == channel_contents(*self).len(),
    {
        self.rx.len()
    }
}

} // verus!
