//! A message bus that lives in memory.
//!
//! It does what a broker does for one process: whoever subscribes to a
//! subject gets its own copy of every message that is published on the
//! subject afterwards, in the order of publication.

use crate::bus::{check_publish_size, counted, MessageBrokerStats, MessageError};
use crate::message::{Message, MessageView};
use vstd::prelude::*;

verus! {

/// Identifier of a subscription on a [`MemoryBus`].
pub type SubscriptionId = u64;

/// One subscription: a subject and the messages that wait to be taken.
struct Subscription {
    id: SubscriptionId,
    subject: String,
    queue: Vec<Message>,
}

/// The mathematical value of a subscription.
pub struct SubscriptionView {
    pub id: SubscriptionId,
    pub subject: Seq<char>,
    /// The messages that wait, the oldest first.
    pub queue: Seq<MessageView>,
}

impl SubscriptionView {
    /// The subscription after a message has been published on `subject`: the
    /// message waits at the end of the queue if the subject is that of the
    /// subscription.
    pub open spec fn after_publish(self, subject: Seq<char>, message: MessageView) -> Self {
        if self.subject == subject {
            SubscriptionView { queue: self.queue.push(message), ..self }
        } else {
            self
        }
    }
}

/// The mathematical value of a list of messages.
pub open spec fn message_views(messages: Seq<Message>) -> Seq<MessageView> {
    messages.map_values(|m: Message| m@)
}

impl View for Subscription {
    type V = SubscriptionView;

    closed spec fn view(&self) -> SubscriptionView {
        SubscriptionView {
            id: self.id,
            subject: self.subject@,
            queue: message_views(self.queue@),
        }
    }
}

/// Position of the subscription with the given identifier, or the number of
/// subscriptions where there is none.
pub open spec fn position_of_subscription(subscriptions: Seq<SubscriptionView>, id: SubscriptionId) -> int
    decreases subscriptions.len(),
{
    if subscriptions.len() == 0 {
        0
    } else if subscriptions[0].id == id {
        0
    } else {
        1 + position_of_subscription(subscriptions.drop_first(), id)
    }
}

/// Number of subscriptions to the given subject.
pub open spec fn subscribers(subscriptions: Seq<SubscriptionView>, subject: Seq<char>) -> nat
    decreases subscriptions.len(),
{
    if subscriptions.len() == 0 {
        0
    } else {
        subscribers(subscriptions.drop_last(), subject) + if subscriptions.last().subject
            == subject {
            1nat
        } else {
            0nat
        }
    }
}

/// Number of messages that wait in all subscriptions together.
pub open spec fn waiting(subscriptions: Seq<SubscriptionView>) -> nat
    decreases subscriptions.len(),
{
    if subscriptions.len() == 0 {
        0
    } else {
        waiting(subscriptions.drop_last()) + subscriptions.last().queue.len()
    }
}

/// The state of a [`MemoryBus`].
pub struct MemoryBusView {
    /// The largest message that is published, in bytes.
    pub max_message_size: usize,
    /// The subscriptions, in the order in which they were made.
    pub subscriptions: Seq<SubscriptionView>,
    /// The identifier that the next subscription gets.
    pub next_id: SubscriptionId,
    /// How many messages have been published.
    pub sent: u64,
    /// How many messages have been taken by subscribers.
    pub received: u64,
    /// How many messages have been rejected.
    pub errors: u64,
}

impl MemoryBusView {
    /// Whether a subscription with the given identifier is open.
    pub open spec fn is_open(self, id: SubscriptionId) -> bool {
        position_of_subscription(self.subscriptions, id) < self.subscriptions.len()
    }

    /// Every subscription has an identifier below the next one, and no two
    /// have the same.
    pub open spec fn wf(self) -> bool {
        &&& forall|i: int|
            0 <= i < self.subscriptions.len() ==> (#[trigger] self.subscriptions[i]).id
                < self.next_id
        &&& forall|i: int, j: int|
            0 <= i < j < self.subscriptions.len() ==> (#[trigger] self.subscriptions[i]).id != (
            #[trigger] self.subscriptions[j]).id
    }

    /// Whether a message that takes `serialized_size` bytes on the wire is
    /// small enough to be published.
    pub open spec fn admits(self, serialized_size: usize) -> bool {
        serialized_size <= self.max_message_size
    }

    /// The state after a message that takes `serialized_size` bytes on the
    /// wire has been published on a subject. A message that is too large is
    /// rejected and counted as an error. Any other is counted as sent, and
    /// every subscription to the subject gets a copy.
    pub open spec fn after_publish(
        self,
        subject: Seq<char>,
        message: MessageView,
        serialized_size: usize,
    ) -> Self {
        if self.admits(serialized_size) {
            MemoryBusView {
                subscriptions: self.subscriptions.map_values(
                    |s: SubscriptionView| s.after_publish(subject, message),
                ),
                sent: counted(self.sent),
                ..self
            }
        } else {
            MemoryBusView { errors: counted(self.errors), ..self }
        }
    }

    /// The state after a subscription to a subject has been made.
    pub open spec fn after_subscribe(self, subject: Seq<char>) -> Self {
        MemoryBusView {
            subscriptions: self.subscriptions.push(
                SubscriptionView { id: self.next_id, subject, queue: Seq::empty() },
            ),
            next_id: (self.next_id + 1) as u64,
            ..self
        }
    }

    /// The message that the subscription with the given identifier gets
    /// next: the oldest that waits for it, if it is open and one waits.
    pub open spec fn next_for(self, id: SubscriptionId) -> Option<MessageView> {
        let at = position_of_subscription(self.subscriptions, id);
        if at < self.subscriptions.len() && self.subscriptions[at].queue.len() > 0 {
            Some(self.subscriptions[at].queue[0])
        } else {
            None
        }
    }

    /// The state after the subscription with the given identifier has taken
    /// its next message.
    pub open spec fn after_next(self, id: SubscriptionId) -> Self {
        let at = position_of_subscription(self.subscriptions, id);
        if self.next_for(id).is_some() {
            MemoryBusView {
                subscriptions: self.subscriptions.update(
                    at,
                    SubscriptionView {
                        queue: self.subscriptions[at].queue.drop_first(),
                        ..self.subscriptions[at]
                    },
                ),
                received: counted(self.received),
                ..self
            }
        } else {
            self
        }
    }

    /// The state after the subscription with the given identifier has been
    /// closed: it is gone, with what waited for it.
    pub open spec fn after_close(self, id: SubscriptionId) -> Self {
        let at = position_of_subscription(self.subscriptions, id);
        if at < self.subscriptions.len() {
            MemoryBusView { subscriptions: self.subscriptions.remove(at), ..self }
        } else {
            self
        }
    }

    /// The figures of the bus.
    pub open spec fn stats(self) -> MessageBrokerStats {
        MessageBrokerStats {
            total_messages_sent: self.sent,
            total_messages_received: self.received,
            active_subscriptions: self.subscriptions.len() as usize,
            queue_depth: if waiting(self.subscriptions) <= usize::MAX {
                waiting(self.subscriptions) as usize
            } else {
                usize::MAX
            },
            error_count: self.errors,
        }
    }
}

/// `position_of_subscription` finds the first subscription with the
/// identifier, and finds none only if there is none.
pub proof fn lemma_position_of_subscription(subscriptions: Seq<SubscriptionView>, id: SubscriptionId)
    ensures
        0 <= position_of_subscription(subscriptions, id) <= subscriptions.len(),
        position_of_subscription(subscriptions, id) < subscriptions.len()
            ==> subscriptions[position_of_subscription(subscriptions, id)].id == id,
        forall|i: int|
            0 <= i < position_of_subscription(subscriptions, id) ==> (
            #[trigger] subscriptions[i]).id != id,
    decreases subscriptions.len(),
{
    if subscriptions.len() > 0 && subscriptions[0].id != id {
        let rest = subscriptions.drop_first();
        lemma_position_of_subscription(rest, id);
        assert forall|i: int| 0 <= i < position_of_subscription(subscriptions, id) implies (
        #[trigger] subscriptions[i]).id != id by {
            if i > 0 {
                assert(subscriptions[i] == rest[i - 1]);
            }
        }
    }
}

/// A subscription that has been closed is closed, and nothing waits for it.
pub proof fn lemma_closed_is_closed(bus: MemoryBusView, id: SubscriptionId)
    requires
        bus.wf(),
    ensures
        !bus.after_close(id).is_open(id),
        bus.after_close(id).next_for(id).is_none(),
{
    let closed = bus.after_close(id);
    lemma_position_of_subscription(bus.subscriptions, id);
    lemma_position_of_subscription(closed.subscriptions, id);
    let at = position_of_subscription(bus.subscriptions, id);
    let again = position_of_subscription(closed.subscriptions, id);
    if again < closed.subscriptions.len() {
        let before = if again < at { again } else { again + 1 };
        assert(closed.subscriptions[again] == bus.subscriptions[before]);
        if before < at {
            assert(bus.subscriptions[before].id != bus.subscriptions[at].id);
        } else {
            assert(bus.subscriptions[at].id != bus.subscriptions[before].id);
        }
    }
}

/// A closed subscription stays closed: once a subscription is gone, it gets
/// no message, whatever is published afterwards.
pub proof fn lemma_closed_gets_nothing(
    bus: MemoryBusView,
    id: SubscriptionId,
    subject: Seq<char>,
    message: MessageView,
    serialized_size: usize,
)
    requires
        bus.wf(),
    ensures
        !bus.after_close(id).after_publish(subject, message, serialized_size).is_open(id),
        bus.after_close(id).after_publish(subject, message, serialized_size).next_for(
            id,
        ).is_none(),
{
    let closed = bus.after_close(id);
    lemma_closed_is_closed(bus, id);
    lemma_position_of_subscription(closed.subscriptions, id);
    let published = closed.after_publish(subject, message, serialized_size);
    lemma_position_of_subscription(published.subscriptions, id);
    let found = position_of_subscription(published.subscriptions, id);
    if found < published.subscriptions.len() {
        assert(published.subscriptions[found].id == closed.subscriptions[found].id);
        assert(closed.subscriptions[found].id != id);
    }
}

/// Every subscription to a subject gets its own copy of a message that is
/// published on the subject, behind what waits for it already; no other
/// subscription gets anything.
pub proof fn lemma_publish_fans_out(
    bus: MemoryBusView,
    subject: Seq<char>,
    message: MessageView,
    serialized_size: usize,
    at: int,
)
    requires
        0 <= at < bus.subscriptions.len(),
        bus.admits(serialized_size),
    ensures
        bus.after_publish(subject, message, serialized_size).subscriptions.len()
            == bus.subscriptions.len(),
        bus.subscriptions[at].subject == subject ==> bus.after_publish(
            subject,
            message,
            serialized_size,
        ).subscriptions[at].queue == bus.subscriptions[at].queue.push(message),
        bus.subscriptions[at].subject != subject ==> bus.after_publish(
            subject,
            message,
            serialized_size,
        ).subscriptions[at] == bus.subscriptions[at],
{
}

/// A message bus in memory.
pub struct MemoryBus {
    max_message_size: usize,
    subscriptions: Vec<Subscription>,
    next_id: SubscriptionId,
    sent: u64,
    received: u64,
    errors: u64,
}

/// The mathematical value of a list of subscriptions.
spec fn subscription_views(subscriptions: Seq<Subscription>) -> Seq<SubscriptionView> {
    subscriptions.map_values(|s: Subscription| s@)
}

impl View for MemoryBus {
    type V = MemoryBusView;

    closed spec fn view(&self) -> MemoryBusView {
        MemoryBusView {
            max_message_size: self.max_message_size,
            subscriptions: subscription_views(self.subscriptions@),
            next_id: self.next_id,
            sent: self.sent,
            received: self.received,
            errors: self.errors,
        }
    }
}

impl MemoryBus {
    /// A bus without subscriptions that takes messages of up to
    /// `max_message_size` bytes.
    pub fn new(max_message_size: usize) -> (bus: Self)
        ensures
            bus@ == (MemoryBusView {
                max_message_size,
                subscriptions: Seq::empty(),
                next_id: 0,
                sent: 0,
                received: 0,
                errors: 0,
            }),
            bus@.wf(),
    {
        let bus = MemoryBus {
            max_message_size,
            subscriptions: Vec::new(),
            next_id: 0,
            sent: 0,
            received: 0,
            errors: 0,
        };
        assert(bus@.subscriptions =~= Seq::<SubscriptionView>::empty());
        bus
    }

    /// Publishes a message on a subject. The size of the message is the
    /// number of bytes that it takes on the wire, as the one who would write
    /// it there hands it in. A message that is larger than the bus takes is
    /// rejected and counted as an error; a message of exactly the largest
    /// size is taken. Every subscription to the subject gets its own copy.
    pub fn publish(&mut self, subject: &str, message: Message, serialized_size: usize) -> (outcome:
        Result<(), MessageError>)
        requires
            old(self)@.wf(),
        ensures
            final(self)@.wf(),
            final(self)@ == old(self)@.after_publish(subject@, message@, serialized_size),
            old(self)@.admits(serialized_size) ==> outcome.is_ok(),
            !old(self)@.admits(serialized_size) ==> outcome == Err::<(), MessageError>(
                MessageError::MessageTooLarge {
                    size: serialized_size,
                    max_size: old(self)@.max_message_size,
                },
            ),
    {
        match check_publish_size(serialized_size, self.max_message_size) {
            Ok(()) => {},
            Err(error) => {
                if self.errors < u64::MAX {
                    self.errors = self.errors + 1;
                }
                assert(self@.subscriptions == old(self)@.subscriptions);
                return Err(error);
            },
        }
        let wanted = String::from_str(subject);
        let ghost before = subscription_views(self.subscriptions@);
        let mut i: usize = 0;
        while i < self.subscriptions.len()
            invariant
                i <= self.subscriptions@.len(),
                wanted@ == subject@,
                before == old(self)@.subscriptions,
                self.subscriptions@.len() == before.len(),
                self.max_message_size == old(self).max_message_size,
                self.next_id == old(self).next_id,
                self.sent == old(self).sent,
                self.received == old(self).received,
                self.errors == old(self).errors,
                forall|j: int|
                    0 <= j < i ==> (#[trigger] self.subscriptions@[j])@ == before[j].after_publish(
                        subject@,
                        message@,
                    ),
                forall|j: int|
                    i <= j < before.len() ==> (#[trigger] self.subscriptions@[j])@ == before[j],
            decreases self.subscriptions@.len() - i,
        {
            if self.subscriptions[i].subject == wanted {
                let copy = message.clone();
                let ghost waiting_before = self.subscriptions@[i as int]@;
                let ghost others = self.subscriptions@;
                let subscription = &mut self.subscriptions[i];
                subscription.queue.push(copy);
                assert(self.subscriptions@[i as int]@.queue =~= waiting_before.queue.push(
                    message@,
                ));
                assert forall|j: int| 0 <= j < before.len() && j != i implies (
                #[trigger] self.subscriptions@[j]) == others[j] by {}
            }
            i = i + 1;
        }
        if self.sent < u64::MAX {
            self.sent = self.sent + 1;
        }
        assert(self@.subscriptions =~= old(self)@.subscriptions.map_values(
            |s: SubscriptionView| s.after_publish(subject@, message@),
        ));
        Ok(())
    }

    /// Subscribes to a subject. The subscription gets every message that is
    /// published on the subject from now on. `None` if the bus has handed out
    /// every identifier it has.
    pub fn subscribe(&mut self, subject: &str) -> (id: Option<SubscriptionId>)
        requires
            old(self)@.wf(),
        ensures
            final(self)@.wf(),
            match id {
                Some(id) => id == old(self)@.next_id && final(self)@ == old(self)@.after_subscribe(
                    subject@,
                ) && final(self)@.is_open(id),
                None => old(self)@.next_id == u64::MAX && final(self)@ == old(self)@,
            },
    {
        if self.next_id == u64::MAX {
            return None;
        }
        let id = self.next_id;
        self.subscriptions.push(
            Subscription { id, subject: String::from_str(subject), queue: Vec::new() },
        );
        self.next_id = id + 1;
        proof {
            assert(message_views(Seq::<Message>::empty()) =~= Seq::<MessageView>::empty());
            assert(self@.subscriptions =~= old(self)@.subscriptions.push(
                SubscriptionView { id, subject: subject@, queue: Seq::empty() },
            ));
            lemma_position_of_subscription(self@.subscriptions, id);
            let found = position_of_subscription(self@.subscriptions, id);
            if found >= self@.subscriptions.len() {
                assert(self@.subscriptions[self@.subscriptions.len() - 1].id != id);
            }
        }
        Some(id)
    }

    fn find(&self, id: SubscriptionId) -> (at: usize)
        ensures
            at == position_of_subscription(self@.subscriptions, id),
            at <= self@.subscriptions.len(),
    {
        let ghost views = subscription_views(self.subscriptions@);
        let mut at: usize = 0;
        assert(views.skip(0) =~= views);
        while at < self.subscriptions.len() && self.subscriptions[at].id != id
            invariant
                at <= self.subscriptions@.len(),
                views == subscription_views(self.subscriptions@),
                position_of_subscription(views, id) == at + position_of_subscription(
                    views.skip(at as int),
                    id,
                ),
            decreases self.subscriptions@.len() - at,
        {
            proof {
                let rest = views.skip(at as int);
                assert(rest[0] == views[at as int]);
                assert(rest.drop_first() =~= views.skip(at + 1));
            }
            at = at + 1;
        }
        proof {
            let rest = views.skip(at as int);
            if at < self.subscriptions@.len() {
                assert(rest[0] == views[at as int]);
            }
        }
        at
    }

    /// The next message of a subscription: the oldest that waits for it.
    /// `None` if nothing waits, or if the subscription is closed.
    pub fn next(&mut self, id: SubscriptionId) -> (message: Option<Message>)
        requires
            old(self)@.wf(),
        ensures
            final(self)@.wf(),
            final(self)@ == old(self)@.after_next(id),
            match message {
                Some(m) => old(self)@.next_for(id) == Some(m@),
                None => old(self)@.next_for(id).is_none(),
            },
    {
        let at = self.find(id);
        if at >= self.subscriptions.len() || self.subscriptions[at].queue.len() == 0 {
            return None;
        }
        let ghost before = self.subscriptions@[at as int]@;
        let ghost others = self.subscriptions@;
        let subscription = &mut self.subscriptions[at];
        let message = subscription.queue.remove(0);
        if self.received < u64::MAX {
            self.received = self.received + 1;
        }
        proof {
            assert(self.subscriptions@[at as int]@.queue =~= before.queue.drop_first());
            assert forall|j: int| 0 <= j < others.len() && j != at implies (
            #[trigger] self.subscriptions@[j]) == others[j] by {}
            assert(self@.subscriptions =~= old(self)@.subscriptions.update(
                at as int,
                SubscriptionView { queue: before.queue.drop_first(), ..before },
            ));
        }
        Some(message)
    }

    /// Closes a subscription. What waited for it is dropped, and it gets
    /// nothing from now on. Nothing changes if it is closed already.
    pub fn close(&mut self, id: SubscriptionId)
        requires
            old(self)@.wf(),
        ensures
            final(self)@.wf(),
            final(self)@ == old(self)@.after_close(id),
            !final(self)@.is_open(id),
    {
        proof {
            lemma_closed_is_closed(self@, id);
        }
        let at = self.find(id);
        if at < self.subscriptions.len() {
            self.subscriptions.remove(at);
            assert(self@.subscriptions =~= old(self)@.subscriptions.remove(at as int));
            assert forall|i: int, j: int| 0 <= i < j < self@.subscriptions.len() implies (
            #[trigger] self@.subscriptions[i]).id != (#[trigger] self@.subscriptions[j]).id by {
                let before_i = if i < at { i } else { i + 1 };
                let before_j = if j < at { j } else { j + 1 };
                assert(self@.subscriptions[i] == old(self)@.subscriptions[before_i]);
                assert(self@.subscriptions[j] == old(self)@.subscriptions[before_j]);
            }
            assert forall|i: int| 0 <= i < self@.subscriptions.len() implies (
            #[trigger] self@.subscriptions[i]).id < self@.next_id by {
                let before_i = if i < at { i } else { i + 1 };
                assert(self@.subscriptions[i] == old(self)@.subscriptions[before_i]);
            }
        }
    }

    /// The figures of the bus.
    pub fn stats(&self) -> (stats: MessageBrokerStats)
        ensures
            stats == self@.stats(),
    {
        let ghost views = subscription_views(self.subscriptions@);
        let mut depth: usize = 0;
        let mut i: usize = 0;
        assert(views.subrange(0, 0) =~= Seq::<SubscriptionView>::empty());
        while i < self.subscriptions.len()
            invariant
                i <= self.subscriptions@.len(),
                views == subscription_views(self.subscriptions@),
                depth == if waiting(views.subrange(0, i as int)) <= usize::MAX {
                    waiting(views.subrange(0, i as int)) as usize
                } else {
                    usize::MAX
                },
            decreases self.subscriptions@.len() - i,
        {
            proof {
                assert(views.subrange(0, i + 1).drop_last() =~= views.subrange(0, i as int));
                assert(views.subrange(0, i + 1).last() == self.subscriptions@[i as int]@);
            }
            let length = self.subscriptions[i].queue.len();
            depth = if length <= usize::MAX - depth {
                depth + length
            } else {
                usize::MAX
            };
            i = i + 1;
        }
        assert(views.subrange(0, i as int) =~= views);
        MessageBrokerStats {
            total_messages_sent: self.sent,
            total_messages_received: self.received,
            active_subscriptions: self.subscriptions.len(),
            queue_depth: depth,
            error_count: self.errors,
        }
    }
}

} // verus!
