//! The broadcast hub: every message that is published reaches every
//! subscriber, in the order of publishing.
//!
//! Each subscriber has a queue with a small bound. Publishing never
//! waits: where a subscriber's queue is full, its oldest message is
//! dropped and counted, and the subscriber's next receive reports the lag
//! before any message. Other subscribers are not touched by that.

use vstd::prelude::*;
use std::collections::VecDeque;

verus! {

/// The bound of a subscriber's queue that the server uses.
pub const HUB_CAPACITY: usize = 8;

/// One subscriber of a hub.
pub struct SubscriberModel {
    /// Whether the subscription still stands.
    pub active: bool,
    /// The messages that wait to be received, oldest first.
    pub pending: Seq<Seq<u8>>,
    /// How many messages were dropped since the last receive.
    pub missed: u64,
}

/// The state of a hub.
pub struct HubModel {
    pub capacity: nat,
    pub closed: bool,
    pub subscribers: Seq<SubscriberModel>,
}

/// What a receive returns, as a mathematical value.
pub enum ReceivedModel {
    Message(Seq<u8>),
    Lagged(u64),
    Empty,
    Closed,
}

/// What a receive returns.
#[derive(Debug, PartialEq, Eq)]
pub enum Received {
    /// The oldest waiting message.
    Message(Vec<u8>),
    /// The subscriber fell behind: this many messages were dropped.
    Lagged(u64),
    /// Nothing waits; more may come.
    Empty,
    /// Nothing waits and nothing will come, or there is no such
    /// subscription.
    Closed,
}

impl View for Received {
    type V = ReceivedModel;

    open spec fn view(&self) -> ReceivedModel {
        match self {
            Received::Message(message) => ReceivedModel::Message(message@),
            Received::Lagged(missed) => ReceivedModel::Lagged(*missed),
            Received::Empty => ReceivedModel::Empty,
            Received::Closed => ReceivedModel::Closed,
        }
    }
}

/// A count that has gone up by one, unless it is at its limit already.
pub open spec fn counted_up(missed: u64) -> u64 {
    if missed < u64::MAX {
        (missed + 1) as u64
    } else {
        missed
    }
}

/// What a published message does to one subscriber: it is put behind the
/// waiting messages, and where the queue is full the oldest one leaves and
/// is counted as missed. A subscription that was given up gets nothing.
pub open spec fn delivered(sub: SubscriberModel, message: Seq<u8>, capacity: nat)
    -> SubscriberModel {
    if !sub.active {
        sub
    } else if sub.pending.len() < capacity {
        SubscriberModel { active: true, pending: sub.pending.push(message), missed: sub.missed }
    } else {
        SubscriberModel {
            active: true,
            pending: sub.pending.skip(1).push(message),
            missed: counted_up(sub.missed),
        }
    }
}

/// The hub after a message was published: every subscriber got it. A
/// closed hub takes no message.
pub open spec fn published(hub: HubModel, message: Seq<u8>) -> HubModel {
    if hub.closed {
        hub
    } else {
        HubModel {
            capacity: hub.capacity,
            closed: false,
            subscribers: Seq::new(
                hub.subscribers.len(),
                |i: int| delivered(hub.subscribers[i], message, hub.capacity),
            ),
        }
    }
}

/// The hub after some messages were published, one after the other.
pub open spec fn published_all(hub: HubModel, messages: Seq<Seq<u8>>) -> HubModel
    decreases messages.len(),
{
    if messages.len() == 0 {
        hub
    } else {
        published_all(published(hub, messages[0]), messages.skip(1))
    }
}

/// A subscriber that has just joined: nothing waits for it.
pub open spec fn newcomer() -> SubscriberModel {
    SubscriberModel { active: true, pending: Seq::empty(), missed: 0 }
}

/// The place that the next subscriber takes: that of the first
/// subscription that was given up, or the one behind the last where all
/// of them stand.
pub open spec fn free_slot(subscribers: Seq<SubscriberModel>) -> int
    decreases subscribers.len(),
{
    if subscribers.len() == 0 || !subscribers[0].active {
        0
    } else {
        1 + free_slot(subscribers.skip(1))
    }
}

/// The hub after one more subscriber joined, in the free place.
pub open spec fn subscribed(hub: HubModel) -> HubModel {
    HubModel {
        capacity: hub.capacity,
        closed: hub.closed,
        subscribers: if free_slot(hub.subscribers) < hub.subscribers.len() {
            hub.subscribers.update(free_slot(hub.subscribers), newcomer())
        } else {
            hub.subscribers.push(newcomer())
        },
    }
}

/// The free place lies among the subscribers or right behind them; every
/// subscription before it stands, and the one in it, if any, was given
/// up.
pub proof fn lemma_free_slot_is_first(subscribers: Seq<SubscriberModel>)
    ensures
        0 <= free_slot(subscribers) <= subscribers.len(),
        forall|i: int| 0 <= i < free_slot(subscribers) ==> (#[trigger] subscribers[i]).active,
        free_slot(subscribers) < subscribers.len() ==> !subscribers[free_slot(
            subscribers,
        )].active,
    decreases subscribers.len(),
{
    if subscribers.len() > 0 && subscribers[0].active {
        let rest = subscribers.skip(1);
        lemma_free_slot_is_first(rest);
        assert forall|i: int| 0 <= i < free_slot(subscribers) implies (
        #[trigger] subscribers[i]).active by {
            if i > 0 {
                assert(subscribers[i] == rest[i - 1]);
            }
        }
    }
}

/// A place before which every subscription stands, and which holds a
/// given-up subscription or lies behind the last, is the free place.
pub proof fn lemma_free_slot_unique(subscribers: Seq<SubscriberModel>, at: int)
    requires
        0 <= at <= subscribers.len(),
        forall|i: int| 0 <= i < at ==> (#[trigger] subscribers[i]).active,
        at < subscribers.len() ==> !subscribers[at].active,
    ensures
        free_slot(subscribers) == at,
    decreases subscribers.len(),
{
    if subscribers.len() > 0 && subscribers[0].active {
        lemma_free_slot_unique(subscribers.skip(1), at - 1);
    }
}

/// The hub after the subscription `id` was given up: what waited for it
/// is gone. Without such a subscription nothing changes.
pub open spec fn unsubscribed(hub: HubModel, id: int) -> HubModel {
    if 0 <= id < hub.subscribers.len() {
        HubModel {
            capacity: hub.capacity,
            closed: hub.closed,
            subscribers: hub.subscribers.update(
                id,
                SubscriberModel { active: false, pending: Seq::empty(), missed: 0 },
            ),
        }
    } else {
        hub
    }
}

/// What the subscriber `id` receives next.
///
/// A lag is reported first, then the waiting messages oldest first; with
/// nothing waiting the answer is `Empty` on an open hub and `Closed` on a
/// closed one. A subscription that does not exist or was given up is
/// answered `Closed`.
pub open spec fn received(hub: HubModel, id: int) -> ReceivedModel {
    if !(0 <= id < hub.subscribers.len()) || !hub.subscribers[id].active {
        ReceivedModel::Closed
    } else if hub.subscribers[id].missed > 0 {
        ReceivedModel::Lagged(hub.subscribers[id].missed)
    } else if hub.subscribers[id].pending.len() > 0 {
        ReceivedModel::Message(hub.subscribers[id].pending[0])
    } else if hub.closed {
        ReceivedModel::Closed
    } else {
        ReceivedModel::Empty
    }
}

/// The hub after the subscriber `id` received: a reported lag is
/// forgotten, a received message has left the queue, and nothing else
/// changes.
pub open spec fn after_receive(hub: HubModel, id: int) -> HubModel {
    match received(hub, id) {
        ReceivedModel::Lagged(_) => HubModel {
            capacity: hub.capacity,
            closed: hub.closed,
            subscribers: hub.subscribers.update(
                id,
                SubscriberModel {
                    active: true,
                    pending: hub.subscribers[id].pending,
                    missed: 0,
                },
            ),
        },
        ReceivedModel::Message(_) => HubModel {
            capacity: hub.capacity,
            closed: hub.closed,
            subscribers: hub.subscribers.update(
                id,
                SubscriberModel {
                    active: true,
                    pending: hub.subscribers[id].pending.skip(1),
                    missed: 0,
                },
            ),
        },
        _ => hub,
    }
}

/// What the subscriber `id` receives in `count` receives, one after the
/// other.
pub open spec fn received_run(hub: HubModel, id: int, count: nat) -> Seq<ReceivedModel>
    decreases count,
{
    if count == 0 {
        Seq::empty()
    } else {
        seq![received(hub, id)] + received_run(after_receive(hub, id), id, (count - 1) as nat)
    }
}

/// Whether a hub is in order: its bound is not 0, no queue is longer than
/// the bound, and nothing waits for a subscription that was given up.
pub open spec fn hub_wf(hub: HubModel) -> bool {
    &&& hub.capacity > 0
    &&& forall|i: int|
        0 <= i < hub.subscribers.len() ==> {
            &&& (#[trigger] hub.subscribers[i]).pending.len() <= hub.capacity
            &&& !hub.subscribers[i].active ==> hub.subscribers[i].pending.len() == 0
        }
}

/// Publishing keeps a hub in order and leaves its number of subscribers
/// as it was.
pub proof fn lemma_published_wf(hub: HubModel, message: Seq<u8>)
    requires
        hub_wf(hub),
    ensures
        hub_wf(published(hub, message)),
        published(hub, message).subscribers.len() == hub.subscribers.len(),
        published(hub, message).closed == hub.closed,
        published(hub, message).capacity == hub.capacity,
{
}

/// A subscriber that joined before some messages were published, and has
/// room for them, finds them behind what already waited for it, in the
/// order in which they were published.
pub proof fn lemma_published_in_order(hub: HubModel, messages: Seq<Seq<u8>>, id: int)
    requires
        hub_wf(hub),
        !hub.closed,
        0 <= id < hub.subscribers.len(),
        hub.subscribers[id].active,
        hub.subscribers[id].pending.len() + messages.len() <= hub.capacity,
    ensures
        published_all(hub, messages).subscribers.len() == hub.subscribers.len(),
        published_all(hub, messages).subscribers[id] == (SubscriberModel {
            active: true,
            pending: hub.subscribers[id].pending + messages,
            missed: hub.subscribers[id].missed,
        }),
        hub_wf(published_all(hub, messages)),
        published_all(hub, messages).closed == hub.closed,
        published_all(hub, messages).capacity == hub.capacity,
    decreases messages.len(),
{
    if messages.len() > 0 {
        lemma_published_wf(hub, messages[0]);
        lemma_published_in_order(published(hub, messages[0]), messages.skip(1), id);
        assert(hub.subscribers[id].pending.push(messages[0]) + messages.skip(1)
            =~= hub.subscribers[id].pending + messages);
    }
}

/// A subscriber on whom nothing is held back receives the waiting
/// messages one by one, oldest first.
pub proof fn lemma_received_in_order(hub: HubModel, id: int)
    requires
        0 <= id < hub.subscribers.len(),
        hub.subscribers[id].active,
        hub.subscribers[id].missed == 0,
    ensures
        received_run(hub, id, hub.subscribers[id].pending.len()) == Seq::new(
            hub.subscribers[id].pending.len(),
            |i: int| ReceivedModel::Message(hub.subscribers[id].pending[i]),
        ),
    decreases hub.subscribers[id].pending.len(),
{
    if hub.subscribers[id].pending.len() > 0 {
        lemma_received_in_order(after_receive(hub, id), id);
    }
}

/// Every subscriber that joined before a run of messages was published,
/// with nothing waiting and room for them all, receives exactly these
/// messages, in the order in which they were published.
pub proof fn lemma_subscribers_observe_publishes(
    hub: HubModel,
    messages: Seq<Seq<u8>>,
    id: int,
)
    requires
        hub_wf(hub),
        !hub.closed,
        0 <= id < hub.subscribers.len(),
        hub.subscribers[id] == newcomer(),
        messages.len() <= hub.capacity,
    ensures
        received_run(published_all(hub, messages), id, messages.len()) == Seq::new(
            messages.len(),
            |i: int| ReceivedModel::Message(messages[i]),
        ),
{
    lemma_published_in_order(hub, messages, id);
    lemma_received_in_order(published_all(hub, messages), id);
}

/// Publishing leaves a hub open or closed as it was.
proof fn lemma_published_all_stays_open(hub: HubModel, messages: Seq<Seq<u8>>)
    ensures
        published_all(hub, messages).closed == hub.closed,
    decreases messages.len(),
{
    if messages.len() > 0 {
        lemma_published_all_stays_open(published(hub, messages[0]), messages.skip(1));
    }
}

/// A subscriber that joins after messages were published does not see
/// them: its first receive finds nothing.
pub proof fn lemma_late_subscriber_sees_nothing(hub: HubModel, messages: Seq<Seq<u8>>)
    requires
        !hub.closed,
    ensures
        received(
            subscribed(published_all(hub, messages)),
            free_slot(published_all(hub, messages).subscribers),
        ) == ReceivedModel::Empty,
{
    lemma_published_all_stays_open(hub, messages);
    lemma_free_slot_is_first(published_all(hub, messages).subscribers);
}

/// One thing that happens to a hub.
pub enum HubEvent {
    /// A message is published.
    Publish(Seq<u8>),
    /// The subscriber with this id receives.
    Receive(int),
    /// A subscriber joins.
    Subscribe,
    /// The subscription with this id is given up.
    Unsubscribe(int),
    /// The hub is closed.
    Close,
}

/// The hub after one event.
pub open spec fn hub_after(hub: HubModel, event: HubEvent) -> HubModel {
    match event {
        HubEvent::Publish(message) => published(hub, message),
        HubEvent::Receive(id) => after_receive(hub, id),
        HubEvent::Subscribe => subscribed(hub),
        HubEvent::Unsubscribe(id) => unsubscribed(hub, id),
        HubEvent::Close => HubModel {
            capacity: hub.capacity,
            closed: true,
            subscribers: hub.subscribers,
        },
    }
}

/// The hub after a run of events.
pub open spec fn hub_run(hub: HubModel, events: Seq<HubEvent>) -> HubModel
    decreases events.len(),
{
    if events.len() == 0 {
        hub
    } else {
        hub_run(hub_after(hub, events[0]), events.skip(1))
    }
}

/// The messages that the hub takes in during a run of events, in the
/// order of publishing.
pub open spec fn taken_in(hub: HubModel, events: Seq<HubEvent>) -> Seq<Seq<u8>>
    decreases events.len(),
{
    if events.len() == 0 {
        Seq::empty()
    } else {
        let first = match events[0] {
            HubEvent::Publish(message) => if hub.closed {
                Seq::empty()
            } else {
                seq![message]
            },
            _ => Seq::empty(),
        };
        first + taken_in(hub_after(hub, events[0]), events.skip(1))
    }
}

/// The messages that the subscriber `id` is handed during a run of
/// events, in the order of its receives.
pub open spec fn handed_to(hub: HubModel, events: Seq<HubEvent>, id: int) -> Seq<Seq<u8>>
    decreases events.len(),
{
    if events.len() == 0 {
        Seq::empty()
    } else {
        let first = match events[0] {
            HubEvent::Receive(who) => match received(hub, who) {
                ReceivedModel::Message(message) => if who == id {
                    seq![message]
                } else {
                    Seq::empty()
                },
                _ => Seq::empty(),
            },
            _ => Seq::empty(),
        };
        first + handed_to(hub_after(hub, events[0]), events.skip(1), id)
    }
}

/// Whether the subscriber `id` keeps up during a run of events: before
/// and after every event its subscription stands and it has missed
/// nothing.
pub open spec fn keeps_up(hub: HubModel, events: Seq<HubEvent>, id: int) -> bool
    decreases events.len(),
{
    &&& 0 <= id < hub.subscribers.len()
    &&& hub.subscribers[id].active
    &&& hub.subscribers[id].missed == 0
    &&& events.len() > 0 ==> keeps_up(hub_after(hub, events[0]), events.skip(1), id)
}

/// A subscriber that keeps up observes every message that is published
/// while it is subscribed, once and in the order of publishing, however
/// publishing, receiving, joining and leaving take turns: what it has been
/// handed, followed by what still waits for it, is what waited for it at
/// the start followed by what was published since.
pub proof fn lemma_subscriber_observes_every_publish(
    hub: HubModel,
    events: Seq<HubEvent>,
    id: int,
)
    requires
        keeps_up(hub, events, id),
    ensures
        0 <= id < hub_run(hub, events).subscribers.len(),
        handed_to(hub, events, id) + hub_run(hub, events).subscribers[id].pending
            == hub.subscribers[id].pending + taken_in(hub, events),
    decreases events.len(),
{
    if events.len() > 0 {
        let next = hub_after(hub, events[0]);
        let rest = events.skip(1);
        assert(keeps_up(next, rest, id));
        lemma_free_slot_is_first(hub.subscribers);
        lemma_subscriber_observes_every_publish(next, rest, id);
        let pending = hub.subscribers[id].pending;
        if events[0] == HubEvent::Receive(id) && pending.len() > 0 {
            let handed = handed_to(next, rest, id);
            let last = hub_run(next, rest).subscribers[id].pending;
            assert(seq![pending[0]] + handed + last =~= seq![pending[0]] + (handed + last));
        }
    }
}

/// A subscriber that joins in the middle of a run of events and keeps up
/// from then on observes what is published after it joined, and nothing
/// of what was published before, nor of what waited for a subscription
/// whose place it took.
pub proof fn lemma_subscriber_observes_nothing_older(
    hub: HubModel,
    before: Seq<HubEvent>,
    after: Seq<HubEvent>,
)
    requires
        keeps_up(
            subscribed(hub_run(hub, before)),
            after,
            free_slot(hub_run(hub, before).subscribers),
        ),
    ensures
        ({
            let id = free_slot(hub_run(hub, before).subscribers);
            let joined = subscribed(hub_run(hub, before));
            handed_to(joined, after, id) + hub_run(joined, after).subscribers[id].pending
                == taken_in(joined, after)
        }),
{
    let id = free_slot(hub_run(hub, before).subscribers);
    let joined = subscribed(hub_run(hub, before));
    lemma_free_slot_is_first(hub_run(hub, before).subscribers);
    lemma_subscriber_observes_every_publish(joined, after, id);
}

/// A subscriber that falls behind costs the others nothing: what a
/// message does to one subscriber does not depend on any other.
pub proof fn lemma_publish_is_per_subscriber(hub: HubModel, message: Seq<u8>, id: int)
    requires
        !hub.closed,
        0 <= id < hub.subscribers.len(),
    ensures
        published(hub, message).subscribers[id] == delivered(
            hub.subscribers[id],
            message,
            hub.capacity,
        ),
{
}

struct Subscriber {
    active: bool,
    pending: VecDeque<Vec<u8>>,
    missed: u64,
}

impl Subscriber {
    spec fn model(self) -> SubscriberModel {
        SubscriberModel {
            active: self.active,
            pending: Seq::new(self.pending@.len(), |i: int| self.pending@[i]@),
            missed: self.missed,
        }
    }
}

/// The models of a list of subscribers.
spec fn models(subscribers: Seq<Subscriber>) -> Seq<SubscriberModel> {
    Seq::new(subscribers.len(), |i: int| subscribers[i].model())
}

/// Where one subscriber of a list changed and the others did not, the
/// models of the list differ in that one place.
proof fn lemma_one_subscriber_changed(
    before: Seq<Subscriber>,
    after: Seq<Subscriber>,
    id: int,
    changed: SubscriberModel,
)
    requires
        after.len() == before.len(),
        0 <= id < before.len(),
        forall|i: int| 0 <= i < before.len() && i != id ==> after[i] == before[i],
        after[id].model().active == changed.active,
        after[id].model().pending =~= changed.pending,
        after[id].model().missed == changed.missed,
    ensures
        models(after) == models(before).update(id, changed),
{
}

/// A hub stays in order when one of its subscribers is replaced by one
/// that is in order.
proof fn lemma_update_keeps_wf(hub: HubModel, id: int, sub: SubscriberModel)
    requires
        hub_wf(hub),
        0 <= id < hub.subscribers.len(),
        sub.pending.len() <= hub.capacity,
        !sub.active ==> sub.pending.len() == 0,
    ensures
        hub_wf(
            HubModel {
                capacity: hub.capacity,
                closed: hub.closed,
                subscribers: hub.subscribers.update(id, sub),
            },
        ),
{
}

/// The hub.
pub struct BroadcastHub {
    capacity: usize,
    closed: bool,
    subscribers: Vec<Subscriber>,
}

impl View for BroadcastHub {
    type V = HubModel;

    closed spec fn view(&self) -> HubModel {
        HubModel {
            capacity: self.capacity as nat,
            closed: self.closed,
            subscribers: models(self.subscribers@),
        }
    }
}

impl BroadcastHub {
    /// Whether the hub is in order.
    pub open spec fn wf(&self) -> bool {
        hub_wf(self@)
    }

    /// An open hub without subscribers whose queues hold `capacity`
    /// messages; none where that bound is 0.
    pub fn new(capacity: usize) -> (hub: Option<Self>)
        ensures
            match hub {
                Some(h) => {
                    &&& capacity > 0
                    &&& h.wf()
                    &&& h@ == (HubModel {
                        capacity: capacity as nat,
                        closed: false,
                        subscribers: Seq::empty(),
                    })
                },
                None => capacity == 0,
            },
    {
        if capacity == 0 {
            return None;
        }
        let hub = BroadcastHub { capacity, closed: false, subscribers: Vec::new() };
        assert(hub@.subscribers =~= Seq::empty());
        Some(hub)
    }

    /// Adds a subscriber and returns its id: the place of the first
    /// subscription that was given up, or a new one behind the last.
    /// Nothing that was published before waits for it.
    pub fn subscribe(&mut self) -> (id: usize)
        requires
            old(self).wf(),
        ensures
            final(self).wf(),
            final(self)@ == subscribed(old(self)@),
            id == free_slot(old(self)@.subscribers),
    {
        let count = self.subscribers.len();
        let mut id: usize = 0;
        while id < count && self.subscribers[id].active
            invariant
                id <= count,
                count == self.subscribers@.len(),
                *self == *old(self),
                forall|i: int| 0 <= i < id ==> (#[trigger] self@.subscribers[i]).active,
            decreases count - id,
        {
            id += 1;
        }
        proof {
            lemma_free_slot_unique(self@.subscribers, id as int);
        }
        if id < count {
            self.subscribers[id].active = true;
            self.subscribers[id].missed = 0;
            proof {
                assert(old(self)@.subscribers[id as int].pending.len() == 0);
                lemma_one_subscriber_changed(
                    old(self).subscribers@,
                    self.subscribers@,
                    id as int,
                    newcomer(),
                );
                lemma_update_keeps_wf(old(self)@, id as int, newcomer());
            }
        } else {
            self.subscribers.push(
                Subscriber { active: true, pending: VecDeque::new(), missed: 0 },
            );
            assert(self.subscribers@[id as int].model().pending =~= Seq::empty());
            assert(self@.subscribers =~= old(self)@.subscribers.push(newcomer()));
        }
        id
    }

    /// Gives up the subscription `id`. The other subscribers keep what
    /// waits for them.
    pub fn unsubscribe(&mut self, id: usize)
        requires
            old(self).wf(),
        ensures
            final(self).wf(),
            final(self)@ == unsubscribed(old(self)@, id as int),
    {
        if id < self.subscribers.len() {
            self.subscribers[id].active = false;
            self.subscribers[id].missed = 0;
            self.subscribers[id].pending.clear();
            proof {
                lemma_one_subscriber_changed(
                    old(self).subscribers@,
                    self.subscribers@,
                    id as int,
                    SubscriberModel { active: false, pending: Seq::empty(), missed: 0 },
                );
                lemma_update_keeps_wf(
                    old(self)@,
                    id as int,
                    SubscriberModel { active: false, pending: Seq::empty(), missed: 0 },
                );
            }
        }
    }

    /// Closes the hub: what waits is still received, and behind it every
    /// subscriber is answered `Closed`.
    pub fn close(&mut self)
        requires
            old(self).wf(),
        ensures
            final(self).wf(),
            final(self)@ == (HubModel {
                capacity: old(self)@.capacity,
                closed: true,
                subscribers: old(self)@.subscribers,
            }),
    {
        self.closed = true;
    }

    /// Whether the hub was closed.
    pub fn is_closed(&self) -> (closed: bool)
        ensures
            closed == self@.closed,
    {
        self.closed
    }

    /// The number of places for subscribers: those of the subscriptions
    /// that stand and of those that were given up and not taken again.
    pub fn subscriber_count(&self) -> (count: usize)
        ensures
            count == self@.subscribers.len(),
    {
        self.subscribers.len()
    }

    /// Publishes a message to every subscriber, without waiting for any
    /// of them. A closed hub takes no message.
    pub fn publish(&mut self, message: &[u8])
        requires
            old(self).wf(),
        ensures
            final(self).wf(),
            final(self)@ == published(old(self)@, message@),
    {
        if self.closed {
            return ;
        }
        let count = self.subscribers.len();
        let mut i: usize = 0;
        while i < count
            invariant
                i <= count,
                count == self.subscribers@.len(),
                count == old(self).subscribers@.len(),
                self.capacity == old(self).capacity,
                self.closed == old(self).closed,
                old(self).wf(),
                forall|j: int|
                    0 <= j < i ==> (#[trigger] self.subscribers@[j]).model() == delivered(
                        old(self).subscribers@[j].model(),
                        message@,
                        self.capacity as nat,
                    ),
                forall|j: int|
                    i <= j < count ==> (#[trigger] self.subscribers@[j]) == old(
                        self,
                    ).subscribers@[j],
            decreases count - i,
        {
            let ghost before = self.subscribers@[i as int];
            if self.subscribers[i].active {
                if self.subscribers[i].pending.len() >= self.capacity {
                    let _ = self.subscribers[i].pending.pop_front();
                    if self.subscribers[i].missed < u64::MAX {
                        self.subscribers[i].missed = self.subscribers[i].missed + 1;
                    }
                }
                self.subscribers[i].pending.push_back(vstd::slice::slice_to_vec(message));
                assert(self.subscribers@[i as int].model().pending =~= delivered(
                    before.model(),
                    message@,
                    self.capacity as nat,
                ).pending);
            }
            i += 1;
        }
        proof {
            lemma_published_wf(old(self)@, message@);
            assert(self@.subscribers =~= published(old(self)@, message@).subscribers);
        }
    }

    /// Hands the subscriber `id` what it receives next, without waiting.
    pub fn try_recv(&mut self, id: usize) -> (got: Received)
        requires
            old(self).wf(),
        ensures
            final(self).wf(),
            got@ == received(old(self)@, id as int),
            final(self)@ == after_receive(old(self)@, id as int),
    {
        if id >= self.subscribers.len() || !self.subscribers[id].active {
            return Received::Closed;
        }
        let ghost before = old(self)@.subscribers[id as int];
        if self.subscribers[id].missed > 0 {
            let missed = self.subscribers[id].missed;
            self.subscribers[id].missed = 0;
            proof {
                lemma_one_subscriber_changed(
                    old(self).subscribers@,
                    self.subscribers@,
                    id as int,
                    SubscriberModel { active: true, pending: before.pending, missed: 0 },
                );
            }
            return Received::Lagged(missed);
        }
        match self.subscribers[id].pending.pop_front() {
            Some(message) => {
                proof {
                    lemma_one_subscriber_changed(
                        old(self).subscribers@,
                        self.subscribers@,
                        id as int,
                        SubscriberModel { active: true, pending: before.pending.skip(1), missed: 0 },
                    );
                }
                Received::Message(message)
            },
            None => {
                proof {
                    lemma_one_subscriber_changed(
                        old(self).subscribers@,
                        self.subscribers@,
                        id as int,
                        before,
                    );
                    assert(old(self)@.subscribers.update(id as int, before)
                        =~= old(self)@.subscribers);
                }
                if self.closed {
                    Received::Closed
                } else {
                    Received::Empty
                }
            },
        }
    }
}

} // verus!
