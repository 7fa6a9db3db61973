//! Events: the per-entity event component definitions, the standard engine
//! events, and the per-type event channel that queues events until a flush
//! delivers them to every subscriber.
use vstd::prelude::*;
use crate::delivery::DeliveryLog;

verus! {

/// One event entry: a trigger function (`fn() -> bool`) and the response
/// function (`fn()`) run when it returns true.
#[derive(Debug, Clone)]
pub struct EventEntryDef {
    pub trigger: String,
    pub response: String,
}

/// The event component of an entity: where its entries are evaluated and
/// the entries themselves.
#[derive(Debug, Clone)]
pub struct EventComponentDef {
    /// Whether the server evaluates the entries.
    pub server_enabled: bool,
    /// Whether the client evaluates the entries.
    pub client_enabled: bool,
    pub entries: Vec<EventEntryDef>,
}

/// The default of the enabled flags when a definition leaves them out.
pub fn default_true() -> (b: bool)
    ensures
        b,
{
    true
}

impl Default for EventComponentDef {
    fn default() -> (d: Self)
        ensures
            d.server_enabled,
            d.client_enabled,
            d.entries@.len() == 0,
    {
        EventComponentDef { server_enabled: default_true(), client_enabled: default_true(), entries: Vec::new() }
    }
}

/// Standard engine-wide events.
#[derive(Debug, Clone)]
pub enum EngineEvent {
    /// A resource file changed (hot reload).
    AssetModified { path: String },
    EntityCreated { entity_id: String },
    EntityDestroyed { entity_id: String },
    ConfigChanged,
    FrameStart,
    FrameEnd,
    RenderStart,
    RenderEnd,
    WindowResize { width: u32, height: u32 },
}

/// The minimal interface through which a scene holds an event bus.
pub trait EventBusBridge {
    /// Delivers every queued event.
    fn flush(&mut self);
}

/// A subscriber to events of type `E`.
pub trait EventHandler<E> {
    /// What the handler promises of itself once it has been handed `event`;
    /// by default nothing.
    open spec fn handled(&self, event: E) -> bool {
        true
    }

    fn handle(&self, event: &E)
        ensures
            self.handled(*event);
}

/// A subscriber held by a channel.
#[verifier::reject_recursive_types(E)]
pub struct Subscriber<E> {
    pub handler: Box<dyn EventHandler<E>>,
}

/// The abstract state of an [`EventChannel`]: the events waiting for the
/// next flush, in publishing order, the subscribers, and every
/// delivery made so far: an event with the index of the subscriber it was
/// handed to, in the order they were made.
#[verifier::reject_recursive_types(E)]
pub struct ChannelView<E> {
    pub queue: Seq<E>,
    pub subscribers: Seq<Subscriber<E>>,
    pub delivered: Seq<(E, nat)>,
}

/// The deliveries of a flush: each event of `queue` in order, to each of
/// the `n` subscribers in subscription order.
pub open spec fn deliveries<E>(queue: Seq<E>, n: nat) -> Seq<(E, nat)>
    decreases queue.len(),
{
    if queue.len() == 0 {
        Seq::empty()
    } else {
        deliveries(queue.drop_last(), n) + Seq::new(n, |j: int| (queue.last(), j as nat))
    }
}

/// `after` is `before` flushed: the queue is empty, the subscribers are
/// the same, and the deliveries of the queued events were made.
pub open spec fn flushed<E>(before: ChannelView<E>, after: ChannelView<E>) -> bool {
    after == ChannelView {
        queue: Seq::empty(),
        delivered: before.delivered + deliveries(before.queue, before.subscribers.len()),
        ..before
    }
}

/// Queue and subscribers of one event type.
#[verifier::reject_recursive_types(E)]
pub struct EventChannel<E> {
    queue: Vec<E>,
    subscribers: Vec<Subscriber<E>>,
    delivered: DeliveryLog<E>,
}

impl<E> View for EventChannel<E> {
    type V = ChannelView<E>;

    closed spec fn view(&self) -> ChannelView<E> {
        ChannelView { queue: self.queue@, subscribers: self.subscribers@, delivered: self.delivered@ }
    }
}

impl<E> EventChannel<E> {
    /// A channel with no event, no subscriber and no delivery.
    pub fn new() -> (c: Self)
        ensures
            c@.queue.len() == 0,
            c@.subscribers.len() == 0,
            c@.delivered.len() == 0,
    {
        EventChannel { queue: Vec::new(), subscribers: Vec::new(), delivered: DeliveryLog::new() }
    }

    /// Queues an event until the next flush.
    pub fn publish(&mut self, event: E)
        ensures
            final(self)@ == (ChannelView { queue: old(self)@.queue.push(event), ..old(self)@ }),
    {
        self.queue.push(event);
    }

    /// Adds a subscriber; it receives the events of every later flush.
    pub fn subscribe(&mut self, handler: Box<dyn EventHandler<E>>)
        ensures
            final(self)@ == (ChannelView { subscribers: old(self)@.subscribers.push(Subscriber { handler }), ..old(self)@ }),
    {
        self.subscribers.push(Subscriber { handler });
    }

    /// The number of queued events.
    pub fn pending(&self) -> (n: usize)
        ensures
            n == self@.queue.len(),
    {
        self.queue.len()
    }

    /// The number of subscribers.
    pub fn subscriber_count(&self) -> (n: usize)
        ensures
            n == self@.subscribers.len(),
    {
        self.subscribers.len()
    }

    /// Hands every queued event, in publishing order, to every subscriber,
    /// in subscription order, then empties the queue.
    pub fn flush(&mut self)
        ensures
            final(self)@ == (ChannelView {
                queue: Seq::empty(),
                delivered: old(self)@.delivered + deliveries(old(self)@.queue, old(self)@.subscribers.len()),
                ..old(self)@
            }),
            flushed(old(self)@, final(self)@),
            forall|i: int, j: int|
                0 <= i < old(self)@.queue.len() && 0 <= j < old(self)@.subscribers.len() ==> (
                #[trigger] old(self)@.subscribers[j]).handler.handled(#[trigger] old(self)@.queue[i]),
    {
        let n = self.queue.len();
        let m = self.subscribers.len();
        let ghost q = self.queue@;
        let mut i: usize = 0;
        assert(old(self)@.delivered + deliveries(q.take(0), m as nat) =~= old(self)@.delivered);
        while i < n
            invariant
                n == self.queue@.len(),
                m == self.subscribers@.len(),
                q == self.queue@,
                q == old(self)@.queue,
                m == old(self)@.subscribers.len(),
                self.subscribers@ == old(self)@.subscribers,
                i <= n,
                forall|a: int, b: int|
                    0 <= a < i && 0 <= b < m ==> (#[trigger] self.subscribers@[b]).handler.handled(#[trigger] q[a]),
                self.delivered@ == old(self)@.delivered + deliveries(q.take(i as int), m as nat),
            decreases n - i,
        {
            let ghost before = self.delivered@;
            let mut j: usize = 0;
            assert(before + Seq::new(0, |k: int| (q[i as int], k as nat)) =~= before);
            while j < m
                invariant
                    n == self.queue@.len(),
                    m == self.subscribers@.len(),
                    q == self.queue@,
                    i < n,
                    j <= m,
                    self.subscribers@ == old(self)@.subscribers,
                    forall|a: int, b: int|
                        0 <= a < i && 0 <= b < m ==> (#[trigger] self.subscribers@[b]).handler.handled(#[trigger] q[a]),
                    forall|b: int| 0 <= b < j ==> (#[trigger] self.subscribers@[b]).handler.handled(q[i as int]),
                    self.delivered@ == before + Seq::new(j as nat, |k: int| (q[i as int], k as nat)),
                decreases m - j,
            {
                self.delivered.deliver(&self.subscribers, j, &self.queue[i]);
                assert(self.delivered@ =~= before + Seq::new((j + 1) as nat, |k: int| (q[i as int], k as nat)));
                j = j + 1;
            }
            proof {
                assert forall|a: int, b: int| 0 <= a < i + 1 && 0 <= b < m implies (
                #[trigger] self.subscribers@[b]).handler.handled(#[trigger] q[a]) by {
                    if a == i {
                        assert(self.subscribers@[b].handler.handled(q[i as int]));
                    }
                }
                assert(q.take(i + 1).drop_last() =~= q.take(i as int));
                assert(q.take(i + 1).last() == q[i as int]);
                assert(self.delivered@ =~= old(self)@.delivered + deliveries(q.take(i + 1), m as nat));
            }
            i = i + 1;
        }
        assert(q.take(n as int) =~= q);
        self.queue.clear();
        assert(self.queue@ =~= Seq::<E>::empty());
    }
}

/// A flush of an empty queue delivers nothing: right after a flush, a
/// second one hands no event to anyone.
pub proof fn flush_of_empty_queue_delivers_nothing<E>(n: nat)
    ensures
        deliveries(Seq::<E>::empty(), n) == Seq::<(E, nat)>::empty(),
{
}

/// The deliveries of a queue to `n` subscribers: one per event and
/// subscriber, the one at position `i * n + j` handing event `i` to
/// subscriber `j`.
proof fn lemma_deliveries_at<E>(q: Seq<E>, n: nat)
    ensures
        deliveries(q, n).len() == q.len() * n,
        forall|i: int, j: int|
            0 <= i < q.len() && 0 <= j < n ==> #[trigger] deliveries(q, n)[i * n + j] == (q[i], j as nat),
    decreases q.len(),
{
    if q.len() > 0 {
        let p = q.drop_last();
        lemma_deliveries_at(p, n);
        let l = q.len() as int;
        assert((l - 1) * n + n == l * n) by (nonlinear_arith);
        assert forall|i: int, j: int| 0 <= i < q.len() && 0 <= j < n implies #[trigger] deliveries(q, n)[i * n + j]
            == (q[i], j as nat) by {
            if i < l - 1 {
                assert(i * n + j < (l - 1) * n) by (nonlinear_arith)
                    requires
                        0 <= i < l - 1,
                        0 <= j < n,
                ;
                assert(deliveries(p, n)[i * n + j] == (p[i], j as nat));
            } else {
                assert(i * n + j == (l - 1) * n + j);
            }
        }
    }
}

/// A flush hands each queued event, in publishing order, to each
/// subscriber, in subscription order, and makes no other delivery: after
/// the deliveries made before, the one at position `i * n + j` (with `n`
/// subscribers) hands event `i` of the queue to subscriber `j`. The queue
/// is then empty and the subscribers are unchanged.
pub proof fn flush_delivers_in_order<E>(before: ChannelView<E>, after: ChannelView<E>)
    requires
        flushed(before, after),
    ensures
        after.delivered.len() == before.delivered.len() + before.queue.len() * before.subscribers.len(),
        after.delivered.subrange(0, before.delivered.len() as int) == before.delivered,
        forall|i: int, j: int|
            0 <= i < before.queue.len() && 0 <= j < before.subscribers.len() ==> after.delivered[before.delivered.len()
                + #[trigger] (i * before.subscribers.len() + j)] == (#[trigger] before.queue[i], j as nat),
        after.queue.len() == 0,
        after.subscribers == before.subscribers,
{
    let n = before.subscribers.len();
    lemma_deliveries_at(before.queue, n);
    let d = deliveries(before.queue, n);
    assert(after.delivered.subrange(0, before.delivered.len() as int) =~= before.delivered);
    assert forall|i: int, j: int| 0 <= i < before.queue.len() && 0 <= j < n implies after.delivered[before.delivered.len()
        + #[trigger] (i * n + j)] == (#[trigger] before.queue[i], j as nat) by {
        let k = i * n + j;
        let l = before.queue.len() as int;
        assert(0 <= k < l * n) by (nonlinear_arith)
            requires
                0 <= i < l,
                0 <= j < n,
                k == i * n + j,
        ;
        assert(d[k] == (before.queue[i], j as nat));
        assert(after.delivered == before.delivered + d);
        assert(after.delivered[before.delivered.len() + k] == d[k]);
    }
}

} // verus!
