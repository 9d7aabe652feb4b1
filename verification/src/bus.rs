//! Publish/subscribe transport for envelopes.
//!
//! Subscribers receive messages on standard channels; what reaches them and
//! when depends on other threads, so the channel operations state nothing
//! of their results.
use std::sync::mpsc::{Receiver, RecvError, RecvTimeoutError, Sender, TryRecvError};
use std::time::Duration;

use vstd::prelude::*;

verus! {

#[verifier::external_type_specification]
#[verifier::external_body]
#[verifier::reject_recursive_types(T)]
pub struct ExReceiver<T>(Receiver<T>);

#[verifier::external_type_specification]
#[verifier::external_body]
#[verifier::reject_recursive_types(T)]
pub struct ExSender<T>(Sender<T>);

#[verifier::external_type_specification]
#[verifier::external_body]
pub struct ExRecvError(RecvError);

#[verifier::external_type_specification]
#[verifier::external_body]
pub struct ExTryRecvError(TryRecvError);

#[verifier::external_type_specification]
#[verifier::external_body]
pub struct ExRecvTimeoutError(RecvTimeoutError);

/// `std::sync::mpsc::channel`: a new channel, its sending and receiving ends.
#[verifier::external_body]
fn open_channel<M>() -> (Sender<M>, Receiver<M>) {
    std::sync::mpsc::channel()
}

/// `Sender::send`: whether the receiving end still exists and took the message.
#[verifier::external_body]
fn send_to<M>(tx: &Sender<M>, message: M) -> bool {
    tx.send(message).is_ok()
}

/// `Receiver::recv`: the next message, waiting for one; an error once every
/// sender is gone.
#[verifier::external_body]
fn receive<M>(rx: &Receiver<M>) -> Result<M, RecvError> {
    rx.recv()
}

/// `Receiver::try_recv`: the next message if one is waiting.
#[verifier::external_body]
fn try_receive<M>(rx: &Receiver<M>) -> Result<M, TryRecvError> {
    rx.try_recv()
}

/// `Receiver::recv_timeout`: the next message, waiting at most `timeout`.
#[verifier::external_body]
fn receive_within<M>(rx: &Receiver<M>, timeout: Duration) -> Result<M, RecvTimeoutError> {
    rx.recv_timeout(timeout)
}

/// The receiving end of a subscription.
#[derive(Debug)]
#[verifier::reject_recursive_types(M)]
pub struct Subscription<M> {
    receiver: Receiver<M>,
}

impl<M> Subscription<M> {
    pub fn new(receiver: Receiver<M>) -> (r: Self) {
        Subscription { receiver }
    }

    /// The next message, waiting for one.
    pub fn recv(&self) -> (r: Result<M, RecvError>) {
        receive(&self.receiver)
    }

    /// The next message if one is waiting.
    pub fn try_recv(&self) -> (r: Result<M, TryRecvError>) {
        try_receive(&self.receiver)
    }

    /// The next message, waiting at most `timeout`.
    pub fn recv_timeout(&self, timeout: Duration) -> (r: Result<M, RecvTimeoutError>) {
        receive_within(&self.receiver, timeout)
    }
}

/// A publish/subscribe transport.
pub trait EventBus<M> {
    type Error: std::fmt::Debug;

    /// The messages this bus accepted for publication, oldest first.
    spec fn spec_published(&self) -> Seq<M>;

    /// Publish a message to the current subscribers. An accepted message is
    /// recorded as published; a refused one is not.
    fn publish(&mut self, message: M) -> (r: Result<(), Self::Error>)
        ensures
            r is Ok ==> final(self).spec_published() == old(self).spec_published().push(message),
            r is Err ==> final(self).spec_published() == old(self).spec_published(),
    ;

    /// Subscribe to messages published from now on.
    fn subscribe(&mut self) -> (r: Subscription<M>)
        ensures
            final(self).spec_published() == old(self).spec_published(),
    ;
}

/// Failure of the in-memory bus.
#[derive(Debug, Clone, Copy, PartialEq, Eq, Structural)]
pub enum InMemoryBusError {
    Poisoned,
}

/// A subscriber of the in-memory bus: the sending end of its channel, and
/// the number it was given when it subscribed.
#[verifier::reject_recursive_types(M)]
struct Subscriber<M> {
    tx: Sender<M>,
    id: Ghost<nat>,
}

/// In-process bus: every message goes to every live subscriber.
#[verifier::reject_recursive_types(M)]
pub struct InMemoryEventBus<M> {
    subscribers: Vec<Subscriber<M>>,
    published: Ghost<Seq<M>>,
    sent: Ghost<Seq<(nat, M)>>,
    next_id: Ghost<nat>,
}

/// Each subscriber of `ids`, in order, handed `message`.
pub open spec fn deliveries<M>(ids: Seq<nat>, message: M) -> Seq<(nat, M)> {
    ids.map_values(|id: nat| (id, message))
}

impl<M> InMemoryEventBus<M> {
    /// The subscribers still held, by the numbers they subscribed under.
    pub closed spec fn spec_subscribers(&self) -> Seq<nat> {
        self.subscribers@.map_values(|s: Subscriber<M>| s.id@)
    }

    /// Every hand-over so far, oldest first: a subscriber's number and the
    /// message a clone of which was sent on its channel.
    pub closed spec fn spec_sent(&self) -> Seq<(nat, M)> {
        self.sent@
    }

    /// The number the next subscriber gets.
    pub closed spec fn spec_next_id(&self) -> nat {
        self.next_id@
    }

    /// How many subscribers the bus holds.
    pub open spec fn subscriber_count(&self) -> nat {
        self.spec_subscribers().len()
    }

    /// Every subscriber, and every hand-over so far, is numbered before
    /// the next number.
    #[verifier::type_invariant]
    closed spec fn numbered_below_next(self) -> bool {
        &&& forall|k: int| 0 <= k < self.subscribers@.len() ==> #[trigger] self.subscribers@[k].id@ < self.next_id@
        &&& sent_below(self.sent@, self.next_id@)
    }
}

/// Every hand-over in `sent` went to a subscriber numbered below `next`:
/// none went to a later subscriber.
pub open spec fn sent_below<M>(sent: Seq<(nat, M)>, next: nat) -> bool {
    forall|k: int| 0 <= k < sent.len() ==> (#[trigger] sent[k]).0 < next
}

/// Every number in `ids` is below `next`: no later subscriber is among them.
pub open spec fn all_below(ids: Seq<nat>, next: nat) -> bool {
    forall|k: int| 0 <= k < ids.len() ==> #[trigger] ids[k] < next
}

impl<M: Clone> InMemoryEventBus<M> {
    pub fn new() -> (r: Self)
        ensures
            r.spec_subscribers() == Seq::<nat>::empty(),
            r.spec_published() == Seq::<M>::empty(),
            r.spec_sent() == Seq::<(nat, M)>::empty(),
            r.spec_next_id() == 0,
            all_below(r.spec_subscribers(), r.spec_next_id()),
            sent_below(r.spec_sent(), r.spec_next_id()),
    {
        let r = InMemoryEventBus {
            subscribers: Vec::new(),
            published: Ghost(Seq::empty()),
            sent: Ghost(Seq::empty()),
            next_id: Ghost(0),
        };
        assert(r.spec_subscribers() =~= Seq::<nat>::empty());
        r
    }
}

impl<M: Clone> EventBus<M> for InMemoryEventBus<M> {
    type Error = InMemoryBusError;

    closed spec fn spec_published(&self) -> Seq<M> {
        self.published@
    }

    /// Send a clone to each subscriber in order, keeping those whose
    /// receiving end still exists.
    fn publish(&mut self, message: M) -> (r: Result<(), InMemoryBusError>)
        ensures
            r is Ok,
            final(self).spec_sent() == old(self).spec_sent() + deliveries(old(self).spec_subscribers(), message),
            final(self).spec_subscribers().len() <= old(self).spec_subscribers().len(),
            forall|k: int|
                0 <= k < final(self).spec_subscribers().len() ==> old(self).spec_subscribers().contains(
                    #[trigger] final(self).spec_subscribers()[k],
                ),
            final(self).spec_next_id() == old(self).spec_next_id(),
            all_below(final(self).spec_subscribers(), final(self).spec_next_id()),
            sent_below(final(self).spec_sent(), final(self).spec_next_id()),
            forall|k: int|
                old(self).spec_sent().len() <= k < final(self).spec_sent().len() ==> (#[trigger] final(self).spec_sent()[k]).0
                    < old(self).spec_next_id(),
    {
        proof {
            use_type_invariant(&*self);
        }
        let ghost ids = self.spec_subscribers();
        assert(all_below(ids, self.next_id@));
        let ghost sent0 = self.sent@;
        let mut live: Vec<Subscriber<M>> = Vec::new();
        let mut subs: Vec<Subscriber<M>> = Vec::new();
        std::mem::swap(&mut subs, &mut self.subscribers);
        let n = subs.len();
        let mut i: usize = 0;
        let mut rest = subs;
        while rest.len() > 0
            invariant
                n == ids.len(),
                i + rest@.len() == n,
                rest@.map_values(|s: Subscriber<M>| s.id@) == ids.skip(i as int),
                self.sent@ == sent0 + deliveries(ids.take(i as int), message),
                live@.len() <= i,
                self.published@ == old(self).published@,
                self.next_id@ == old(self).next_id@,
                self.subscribers@.len() == 0,
                all_below(ids, self.next_id@),
                forall|k: int|
                    0 <= k < live@.len() ==> ids.contains(#[trigger] live@[k].id@),
                sent_below(self.sent@, self.next_id@),
            decreases rest@.len(),
        {
            let ghost before_rest = rest@;
            let sub = rest.remove(0);
            assert(sub.id@ == ids[i as int]) by {
                assert(before_rest.map_values(|s: Subscriber<M>| s.id@)[0] == ids.skip(i as int)[0]);
            }
            assert forall|k: int| 0 <= k < rest@.len() implies #[trigger] rest@[k].id@ == ids.skip(i + 1)[k] by {
                assert(rest@[k] == before_rest[k + 1]);
                assert(before_rest.map_values(|s: Subscriber<M>| s.id@)[k + 1] == ids.skip(i as int)[k + 1]);
            }
            assert(rest@.map_values(|s: Subscriber<M>| s.id@) =~= ids.skip(i + 1));
            proof {
                self.sent@ = self.sent@.push((sub.id@, message));
                assert(ids.take(i + 1) =~= ids.take(i as int).push(ids[i as int]));
                assert(deliveries(ids.take(i + 1), message) =~= deliveries(ids.take(i as int), message).push(
                    (ids[i as int], message),
                ));
                assert(sent0 + deliveries(ids.take(i + 1), message) =~= (sent0 + deliveries(
                    ids.take(i as int),
                    message,
                )).push((ids[i as int], message)));
            }
            if send_to(&sub.tx, message.clone()) {
                let ghost lv = live@;
                live.push(sub);
                assert(ids.contains(ids[i as int]));
                assert forall|k: int| 0 <= k < live@.len() implies ids.contains(#[trigger] live@[k].id@) by {
                    if k < lv.len() {
                        assert(live@[k] == lv[k]);
                    }
                }
            }
            i = i + 1;
        }
        assert(ids.take(n as int) =~= ids);
        assert forall|k: int| 0 <= k < live@.len() implies #[trigger] live@[k].id@ < self.next_id@ by {
            let q = choose|q: int| 0 <= q < ids.len() && ids[q] == live@[k].id@;
        }
        self.subscribers = live;
        assert forall|k: int| old(self).spec_sent().len() <= k < self.sent@.len() implies (#[trigger] self.sent@[k]).0
            < old(self).spec_next_id() by {
            assert(self.sent@[k] == deliveries(ids, message)[k - sent0.len()]);
        }
        assert forall|k: int| 0 <= k < self.sent@.len() implies (#[trigger] self.sent@[k]).0 < self.next_id@ by {
            if k < sent0.len() {
                assert(self.sent@[k] == sent0[k]);
            }
        }
        proof {
            self.published@ = self.published@.push(message);
        }
        Ok(())
    }

    fn subscribe(&mut self) -> (r: Subscription<M>)
        ensures
            final(self).spec_subscribers() == old(self).spec_subscribers().push(old(self).spec_next_id()),
            final(self).spec_next_id() == old(self).spec_next_id() + 1,
            final(self).spec_sent() == old(self).spec_sent(),
            all_below(final(self).spec_subscribers(), final(self).spec_next_id()),
            sent_below(final(self).spec_sent(), final(self).spec_next_id()),
            sent_below(final(self).spec_sent(), old(self).spec_next_id()),
    {
        proof {
            use_type_invariant(&*self);
        }
        let (tx, rx) = open_channel();
        let ghost id = self.next_id@;
        let ghost before = self.subscribers@;
        proof {
            self.next_id@ = id + 1;
        }
        let mut subs: Vec<Subscriber<M>> = Vec::new();
        std::mem::swap(&mut subs, &mut self.subscribers);
        subs.push(Subscriber { tx, id: Ghost(id) });
        assert forall|k: int| 0 <= k < subs@.len() implies #[trigger] subs@[k].id@ < self.next_id@ by {
            if k < before.len() {
                assert(subs@[k] == before[k]);
            }
        }
        self.subscribers = subs;
        assert(self.subscribers@.map_values(|s: Subscriber<M>| s.id@) =~= before.map_values(
            |s: Subscriber<M>| s.id@,
        ).push(id));
        proof {
            use_type_invariant(&*self);
        }
        Subscription::new(rx)
    }
}

} // verus!
