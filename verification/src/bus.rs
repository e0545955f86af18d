use vstd::prelude::*;
use crate::error::{BellaError, BellaResult};
use crate::message::Envelope;
use crate::subsystem::{subsystem_name, SubsystemId};
use tokio::sync::mpsc::{Receiver, Sender};

verus! {

#[verifier::external_type_specification]
#[verifier::external_body]
#[verifier::reject_recursive_types(T)]
pub struct ExSender<T>(tokio::sync::mpsc::Sender<T>);

#[verifier::external_type_specification]
#[verifier::external_body]
#[verifier::reject_recursive_types(T)]
pub struct ExReceiver<T>(tokio::sync::mpsc::Receiver<T>);

/// Bounded capacity of every subsystem inbox: a stuck subsystem cannot
/// accumulate unlimited memory; a full inbox is a handled error.
pub const INBOX_CAPACITY: usize = 256;

/// What became of one attempt to put an envelope into an inbox.
pub enum Delivery {
    /// The envelope is in the inbox.
    Sent,
    /// The inbox is full; the envelope comes back.
    Full(Envelope),
    /// The inbox's receiver is gone; the envelope comes back.
    Closed(Envelope),
}

/// Calls `tokio::sync::mpsc::channel(capacity)`, which panics on a capacity
/// of 0 or above tokio's semaphore limit (`usize::MAX >> 3`); the two halves
/// are opaque, so nothing is claimed of them.
#[verifier::external_body]
fn bounded_channel(capacity: usize) -> (Sender<Envelope>, Receiver<Envelope>)
    requires
        0 < capacity <= usize::MAX / 8,
{
    tokio::sync::mpsc::channel(capacity)
}

/// Calls `Sender::try_send`. Whether the inbox takes the envelope depends on
/// what its receiver has drained meanwhile; what is claimed is that a
/// refused envelope comes back unchanged.
#[verifier::external_body]
fn try_deliver(tx: &Sender<Envelope>, envelope: Envelope) -> (d: Delivery)
    ensures
        d matches Delivery::Full(e) ==> e == envelope,
        d matches Delivery::Closed(e) ==> e == envelope,
{
    match tx.try_send(envelope) {
        Ok(()) => Delivery::Sent,
        Err(tokio::sync::mpsc::error::TrySendError::Full(e)) => Delivery::Full(e),
        Err(tokio::sync::mpsc::error::TrySendError::Closed(e)) => Delivery::Closed(e),
    }
}

/// `d` is what `Sender::try_send` answered (through `try_deliver`) when
/// `envelope` was offered to the inbox whose sending half is `tx`.
pub closed spec fn offered_to(tx: Sender<Envelope>, envelope: Envelope, d: Delivery) -> bool {
    call_ensures(try_deliver, (&tx, envelope), d)
}

/// `tx` and `rx` are the two halves of one inbox, made together by
/// `tokio::sync::mpsc::channel(INBOX_CAPACITY)` (through `bounded_channel`):
/// what is offered to `tx` and taken is what `rx` receives.
pub closed spec fn halves_of_one_inbox(tx: Sender<Envelope>, rx: Receiver<Envelope>) -> bool {
    call_ensures(bounded_channel, (INBOX_CAPACITY,), (tx, rx))
}

/// Some envelope that `make` made for `id` was offered to the inbox whose
/// sending half is `tx`.
pub open spec fn offered_made<F: Fn(SubsystemId) -> Envelope>(make: F, id: SubsystemId, tx: Sender<Envelope>) -> bool {
    exists|e: Envelope, d: Delivery| #[trigger] make.ensures((id,), e) && #[trigger] offered_to(tx, e, d)
}

/// The result matches the delivery outcome, with the destination's name as
/// the error text.
pub open spec fn reports_delivery(dest: SubsystemId, sent: bool, full: bool, r: BellaResult<()>) -> bool {
    if sent {
        r is Ok
    } else if full {
        r matches Err(BellaError::ChannelFull(t)) && t@ == subsystem_name(dest)
    } else {
        r matches Err(BellaError::ChannelClosed(t)) && t@ == subsystem_name(dest)
    }
}

/// The result of a send to `dest` once the delivery attempt went as `d`:
/// `Ok` when the envelope is in the inbox; `ChannelFull` (backpressure,
/// never a deadlock) when the inbox is full; `ChannelClosed` when its
/// receiver is gone.
pub fn delivery_result(dest: SubsystemId, d: Delivery) -> (r: BellaResult<()>)
    ensures
        reports_delivery(dest, d is Sent, d is Full, r),
{
    match d {
        Delivery::Sent => Ok(()),
        Delivery::Full(_) => Err(BellaError::ChannelFull(dest.to_text())),
        Delivery::Closed(_) => Err(BellaError::ChannelClosed(dest.to_text())),
    }
}

/// The message bus: one bounded inbox per registered subsystem. A subsystem
/// registers once to obtain its receiving half; everyone else addresses it
/// by `SubsystemId` alone. The view is the sequence of registered ids.
pub struct MessageBus {
    senders: Vec<(SubsystemId, Sender<Envelope>)>,
}

/// The registered ids of a table of senders.
pub open spec fn ids_of(senders: Seq<(SubsystemId, Sender<Envelope>)>) -> Seq<SubsystemId> {
    senders.map_values(|p: (SubsystemId, Sender<Envelope>)| p.0)
}

impl View for MessageBus {
    type V = Seq<SubsystemId>;

    closed spec fn view(&self) -> Seq<SubsystemId> {
        ids_of(self.senders@)
    }
}

impl MessageBus {
    #[verifier::type_invariant]
    closed spec fn well_formed(self) -> bool {
        ids_of(self.senders@).no_duplicates()
    }

    /// The position in the table of the entry registered under `id`.
    closed spec fn slot(&self, id: SubsystemId) -> int {
        choose|i: int| 0 <= i < self.senders@.len() && self.senders@[i].0 == id
    }

    /// The sending half of the inbox registered under `id`.
    pub closed spec fn sender_for(&self, id: SubsystemId) -> Sender<Envelope> {
        self.senders@[self.slot(id)].1
    }

    /// With ids unique, the entry registered under an id is the one at its
    /// position.
    proof fn lemma_slot(&self, i: int)
        requires
            ids_of(self.senders@).no_duplicates(),
            0 <= i < self.senders@.len(),
        ensures
            self.slot(self.senders@[i].0) == i,
            self.sender_for(self.senders@[i].0) == self.senders@[i].1,
    {
        let id = self.senders@[i].0;
        assert(ids_of(self.senders@)[i] == id);
        let j = self.slot(id);
        assert(0 <= j < self.senders@.len() && self.senders@[j].0 == id);
        assert(ids_of(self.senders@)[j] == id);
    }

    /// A bus with no subsystem registered.
    pub fn new() -> (b: Self)
        ensures
            b@ == Seq::<SubsystemId>::empty(),
    {
        let b = MessageBus { senders: Vec::new() };
        assert(b@ =~= Seq::<SubsystemId>::empty());
        b
    }

    /// The position of `id` among the registered ids, if registered.
    fn position(&self, id: SubsystemId) -> (r: Option<usize>)
        ensures
            r is None <==> !self@.contains(id),
            r matches Some(i) ==> i < self@.len() && self@[i as int] == id,
    {
        let n = self.senders.len();
        let mut i: usize = 0;
        while i < n
            invariant
                n == self.senders@.len(),
                i <= n,
                forall|j: int| 0 <= j < i ==> self@[j] != id,
            decreases n - i,
        {
            if self.senders[i].0 == id {
                return Some(i);
            }
            i += 1;
        }
        None
    }

    /// Register a subsystem's inbox (of `INBOX_CAPACITY` envelopes) and
    /// hand back its receiving half; only the bus keeps the sending half.
    /// Registering an id again replaces its inbox.
    pub fn register(&mut self, id: SubsystemId) -> (rx: Receiver<Envelope>)
        ensures
            final(self)@ == if old(self)@.contains(id) {
                old(self)@
            } else {
                old(self)@.push(id)
            },
            halves_of_one_inbox(final(self).sender_for(id), rx),
            forall|x: SubsystemId| x != id && old(self)@.contains(x) ==> #[trigger] final(self).sender_for(x) == old(self).sender_for(x),
    {
        proof { use_type_invariant(&*self); }
        let (tx, rx) = bounded_channel(INBOX_CAPACITY);
        let ghost gtx = tx;
        let ghost grx = rx;
        assert(halves_of_one_inbox(gtx, grx));
        let ghost old_self = *self;
        match self.position(id) {
            Some(i) => {
                let ghost before = self.senders@;
                let mut senders: Vec<(SubsystemId, Sender<Envelope>)> = Vec::new();
                std::mem::swap(&mut senders, &mut self.senders);
                senders.set(i, (id, tx));
                assert(ids_of(senders@) =~= ids_of(before));
                self.senders = senders;
                proof {
                    self.lemma_slot(i as int);
                    assert forall|x: SubsystemId| x != id && old_self@.contains(x) implies #[trigger] self.sender_for(x) == old_self.sender_for(x) by {
                        let k = choose|k: int| 0 <= k < old_self@.len() && old_self@[k] == x;
                        assert(old_self.senders@[k].0 == x);
                        old_self.lemma_slot(k);
                        assert(k != i);
                        assert(self.senders@[k] == before[k]);
                        self.lemma_slot(k);
                    }
                }
            },
            None => {
                let ghost before = self.senders@;
                let mut senders: Vec<(SubsystemId, Sender<Envelope>)> = Vec::new();
                std::mem::swap(&mut senders, &mut self.senders);
                senders.push((id, tx));
                assert(ids_of(senders@) =~= ids_of(before).push(id));
                self.senders = senders;
                proof {
                    self.lemma_slot(before.len() as int);
                    assert forall|x: SubsystemId| x != id && old_self@.contains(x) implies #[trigger] self.sender_for(x) == old_self.sender_for(x) by {
                        let k = choose|k: int| 0 <= k < old_self@.len() && old_self@[k] == x;
                        assert(old_self.senders@[k].0 == x);
                        old_self.lemma_slot(k);
                        assert(self.senders@[k] == before[k]);
                        self.lemma_slot(k);
                    }
                }
            },
        }
        rx
    }

    /// Remove a subsystem's inbox; every other registration stays.
    pub fn deregister(&mut self, id: SubsystemId)
        ensures
            !final(self)@.contains(id),
            forall|x: SubsystemId| x != id ==> (final(self)@.contains(x) <==> old(self)@.contains(x)),
            forall|x: SubsystemId| x != id && old(self)@.contains(x) ==> #[trigger] final(self).sender_for(x) == old(self).sender_for(x),
    {
        proof { use_type_invariant(&*self); }
        let ghost old_self = *self;
        match self.position(id) {
            Some(i) => {
                let ghost before = ids_of(self.senders@);
                let mut senders: Vec<(SubsystemId, Sender<Envelope>)> = Vec::new();
                std::mem::swap(&mut senders, &mut self.senders);
                let _removed = senders.remove(i);
                assert(ids_of(senders@) =~= before.remove(i as int));
                proof {
                    before.remove_ensures(i as int);
                    assert forall|x: SubsystemId| x != id implies (ids_of(senders@).contains(x) <==> before.contains(x)) by {
                        if before.contains(x) {
                            let k = choose|k: int| 0 <= k < before.len() && before[k] == x;
                            if k < i {
                                assert(ids_of(senders@)[k] == x);
                            } else {
                                assert(k != i);
                                assert(ids_of(senders@)[k - 1] == x);
                            }
                        }
                    }
                    assert(!ids_of(senders@).contains(id)) by {
                        if ids_of(senders@).contains(id) {
                            let k = choose|k: int| 0 <= k < ids_of(senders@).len() && ids_of(senders@)[k] == id;
                            if k < i {
                                assert(before[k] == id);
                            } else {
                                assert(before[k + 1] == id);
                            }
                        }
                    }
                    assert(ids_of(senders@).no_duplicates()) by {
                        assert forall|a: int, b: int| 0 <= a < b < ids_of(senders@).len() implies ids_of(senders@)[a] != ids_of(senders@)[b] by {
                            let aa = if a < i { a } else { a + 1 };
                            let bb = if b < i { b } else { b + 1 };
                            assert(ids_of(senders@)[a] == before[aa]);
                            assert(ids_of(senders@)[b] == before[bb]);
                        }
                    }
                }
                self.senders = senders;
                proof {
                    assert forall|x: SubsystemId| x != id && old_self@.contains(x) implies #[trigger] self.sender_for(x) == old_self.sender_for(x) by {
                        let k = choose|k: int| 0 <= k < old_self@.len() && old_self@[k] == x;
                        assert(old_self.senders@[k].0 == x);
                        old_self.lemma_slot(k);
                        assert(k != i);
                        let kk = if k < i { k } else { k - 1 };
                        assert(self.senders@[kk] == old_self.senders@[k]);
                        self.lemma_slot(kk);
                    }
                }
            },
            None => {},
        }
    }

    /// Send an envelope to its destination's inbox, without waiting: an
    /// unregistered destination is `SubsystemNotFound`; otherwise the result
    /// reports the delivery (`Ok`, or `ChannelFull` / `ChannelClosed`, each
    /// naming the destination).
    pub fn send(&self, envelope: Envelope) -> (r: BellaResult<()>)
        ensures
            !self@.contains(envelope.destination) <==> r matches Err(BellaError::SubsystemNotFound(_)),
            r matches Err(BellaError::SubsystemNotFound(t)) ==> t@ == subsystem_name(envelope.destination),
            self@.contains(envelope.destination) ==> exists|d: Delivery| #[trigger] offered_to(self.sender_for(envelope.destination), envelope, d)
                && reports_delivery(envelope.destination, d is Sent, d is Full, r),
    {
        proof { use_type_invariant(self); }
        let dest = envelope.destination;
        let ghost genv = envelope;
        match self.position(dest) {
            None => Err(BellaError::SubsystemNotFound(dest.to_text())),
            Some(i) => {
                proof { self.lemma_slot(i as int); }
                let d = try_deliver(&self.senders[i].1, envelope);
                let ghost gd = d;
                assert(offered_to(self.sender_for(dest), genv, gd));
                let ghost sent = d is Sent;
                let ghost full = d is Full;
                let r = delivery_result(dest, d);
                assert(reports_delivery(dest, sent, full, r));
                r
            },
        }
    }

    /// The subsystems a broadcast from `exclude` goes to: every registered
    /// one but `exclude`, in registration order.
    pub fn broadcast_targets(&self, exclude: SubsystemId) -> (ids: Vec<SubsystemId>)
        ensures
            ids@ == self@.filter(|x: SubsystemId| x != exclude),
    {
        let ghost pred = |x: SubsystemId| x != exclude;
        let n = self.senders.len();
        let mut ids: Vec<SubsystemId> = Vec::new();
        let mut i: usize = 0;
        while i < n
            invariant
                n == self.senders@.len(),
                i <= n,
                pred == (|x: SubsystemId| x != exclude),
                ids@ == self@.take(i as int).filter(pred),
            decreases n - i,
        {
            proof {
                reveal(Seq::filter);
                assert(self@.take(i + 1).drop_last() =~= self@.take(i as int));
            }
            let id = self.senders[i].0;
            if id != exclude {
                ids.push(id);
            }
            i += 1;
        }
        assert(self@.take(n as int) =~= self@);
        ids
    }

    /// Offer an envelope, made by `make_envelope` for each target, to every
    /// registered subsystem except `exclude` (lifecycle events every
    /// subsystem must react to); returns the ids offered one, in order. A
    /// full or closed inbox is skipped.
    pub fn broadcast_except<F: Fn(SubsystemId) -> Envelope>(&self, exclude: SubsystemId, make_envelope: F) -> (offered: Vec<SubsystemId>)
        requires
            forall|id: SubsystemId| make_envelope.requires((id,)),
        ensures
            offered@ == self@.filter(|x: SubsystemId| x != exclude),
            forall|k: int| 0 <= k < offered@.len() ==> offered_made(make_envelope, offered@[k], #[trigger] self.sender_for(offered@[k])),
    {
        proof { use_type_invariant(self); }
        let targets = self.broadcast_targets(exclude);
        let n = targets.len();
        let mut k: usize = 0;
        while k < n
            invariant
                n == targets@.len(),
                k <= n,
                targets@ == self@.filter(|x: SubsystemId| x != exclude),
                forall|id: SubsystemId| make_envelope.requires((id,)),
                ids_of(self.senders@).no_duplicates(),
                forall|j: int| 0 <= j < k ==> offered_made(make_envelope, targets@[j], #[trigger] self.sender_for(targets@[j])),
            decreases n - k,
        {
            let id = targets[k];
            proof {
                assert(self@.filter(|x: SubsystemId| x != exclude).contains(targets@[k as int]));
                self@.lemma_filter_contains_rev(|x: SubsystemId| x != exclude, targets@[k as int]);
            }
            match self.position(id) {
                Some(i) => {
                    proof { self.lemma_slot(i as int); }
                    let e = make_envelope(id);
                    let ghost ge = e;
                    let d = try_deliver(&self.senders[i].1, e);
                    let ghost gd = d;
                    assert(offered_to(self.sender_for(id), ge, gd));
                    assert(make_envelope.ensures((id,), ge));
                    assert(offered_made(make_envelope, id, self.sender_for(id)));
                },
                None => {},
            }
            k += 1;
        }
        targets
    }

    /// Is a subsystem registered?
    pub fn is_registered(&self, id: SubsystemId) -> (r: bool)
        ensures
            r == self@.contains(id),
    {
        self.position(id).is_some()
    }
}

impl Default for MessageBus {
    fn default() -> (b: Self)
        ensures
            b@ == Seq::<SubsystemId>::empty(),
    {
        Self::new()
    }
}

} // verus!
