//! The message bus as the coordination layer sees it: its configuration, its
//! counters, the limit on the size of a message, and the rules for
//! subscriptions that falter.

use crate::channel::{send, try_receive, unbounded_queue, ReceiveFailure};
use crate::message::Message;
use crate::text::{decimal, to_decimal};
use crate::types::Timestamp;
use tokio::sync::mpsc::{UnboundedReceiver, UnboundedSender};
use vstd::prelude::*;

verus! {

/// How to reach the broker.
#[derive(Debug, PartialEq, Eq)]
pub struct NatsConfig {
    /// Address of the broker.
    pub url: String,
    /// How long to wait for a connection, in milliseconds.
    pub connection_timeout_ms: u64,
    /// How often to try to connect again.
    pub max_reconnect_attempts: u32,
    /// How long to wait between two attempts, in milliseconds.
    pub reconnect_delay_ms: u64,
    /// The largest message that is published, in bytes.
    pub max_message_size: usize,
    /// Whether the connection is encrypted.
    pub enable_tls: bool,
    /// Where the certificate is, if the connection is encrypted.
    pub tls_cert_path: Option<String>,
    /// Where the key is, if the connection is encrypted.
    pub tls_key_path: Option<String>,
    /// Where the certificate of the authority is, if the connection is
    /// encrypted.
    pub tls_ca_path: Option<String>,
}

impl Default for NatsConfig {
    /// A broker on this machine, reached without encryption, with messages
    /// of at most one mebibyte.
    fn default() -> (config: Self)
        ensures
            config.url@ == "nats://localhost:4222"@,
            config.connection_timeout_ms == 5000,
            config.max_reconnect_attempts == 10,
            config.reconnect_delay_ms == 1000,
            config.max_message_size == 1_048_576,
            !config.enable_tls,
            config.tls_cert_path.is_none(),
            config.tls_key_path.is_none(),
            config.tls_ca_path.is_none(),
    {
        NatsConfig {
            url: String::from_str("nats://localhost:4222"),
            connection_timeout_ms: 5000,
            max_reconnect_attempts: 10,
            reconnect_delay_ms: 1000,
            max_message_size: 1_048_576,
            enable_tls: false,
            tls_cert_path: None,
            tls_key_path: None,
            tls_ca_path: None,
        }
    }
}

/// One more, unless the counter is at its largest number already.
pub open spec fn counted(counter: u64) -> u64 {
    if counter < u64::MAX {
        (counter + 1) as u64
    } else {
        counter
    }
}

/// The counters of a connection to the broker.
#[derive(Debug, Clone, Copy, PartialEq, Eq, Structural)]
pub struct NatsStats {
    pub messages_sent: u64,
    pub messages_received: u64,
    pub active_subscriptions: usize,
    pub is_connected: bool,
    pub last_connected: Option<Timestamp>,
    pub last_disconnected: Option<Timestamp>,
    pub reconnection_count: u32,
    pub error_count: u64,
}

/// The counters of a message broker of any kind.
#[derive(Debug, Clone, Copy, PartialEq, Eq, Structural)]
pub struct MessageBrokerStats {
    pub total_messages_sent: u64,
    pub total_messages_received: u64,
    pub active_subscriptions: usize,
    pub queue_depth: usize,
    pub error_count: u64,
}

impl Default for NatsStats {
    /// Nothing sent, nothing received, not connected.
    fn default() -> (stats: Self)
        ensures
            stats == (NatsStats {
                messages_sent: 0,
                messages_received: 0,
                active_subscriptions: 0,
                is_connected: false,
                last_connected: None,
                last_disconnected: None,
                reconnection_count: 0,
                error_count: 0,
            }),
    {
        NatsStats {
            messages_sent: 0,
            messages_received: 0,
            active_subscriptions: 0,
            is_connected: false,
            last_connected: None,
            last_disconnected: None,
            reconnection_count: 0,
            error_count: 0,
        }
    }
}

impl NatsStats {
    /// The counters of a connection that was made at `now`.
    pub fn connected(now: Timestamp) -> (stats: Self)
        ensures
            stats == (NatsStats {
                messages_sent: 0,
                messages_received: 0,
                active_subscriptions: 0,
                is_connected: true,
                last_connected: Some(now),
                last_disconnected: None,
                reconnection_count: 0,
                error_count: 0,
            }),
    {
        NatsStats {
            messages_sent: 0,
            messages_received: 0,
            active_subscriptions: 0,
            is_connected: true,
            last_connected: Some(now),
            last_disconnected: None,
            reconnection_count: 0,
            error_count: 0,
        }
    }

    /// Counts a message as sent.
    pub fn record_publish(&mut self)
        ensures
            *final(self) == (NatsStats {
                messages_sent: counted(old(self).messages_sent),
                ..*old(self)
            }),
    {
        if self.messages_sent < u64::MAX {
            self.messages_sent = self.messages_sent + 1;
        }
    }

    /// Counts what came in on a subscription: a message that could be read
    /// and was handed on as received, one that could not be read as an error.
    pub fn record_delivery(&mut self, readable: bool)
        ensures
            *final(self) == if readable {
                NatsStats { messages_received: counted(old(self).messages_received), ..*old(self) }
            } else {
                NatsStats { error_count: counted(old(self).error_count), ..*old(self) }
            },
    {
        if readable {
            if self.messages_received < u64::MAX {
                self.messages_received = self.messages_received + 1;
            }
        } else {
            if self.error_count < u64::MAX {
                self.error_count = self.error_count + 1;
            }
        }
    }

    /// Counts one more subscription.
    pub fn record_subscribe(&mut self)
        ensures
            *final(self) == (NatsStats {
                active_subscriptions: if old(self).active_subscriptions < usize::MAX {
                    (old(self).active_subscriptions + 1) as usize
                } else {
                    old(self).active_subscriptions
                },
                ..*old(self)
            }),
    {
        if self.active_subscriptions < usize::MAX {
            self.active_subscriptions = self.active_subscriptions + 1;
        }
    }

    /// Counts one subscription less, never below zero.
    pub fn record_unsubscribe(&mut self)
        ensures
            *final(self) == (NatsStats {
                active_subscriptions: if old(self).active_subscriptions > 0 {
                    (old(self).active_subscriptions - 1) as usize
                } else {
                    0
                },
                ..*old(self)
            }),
    {
        if self.active_subscriptions > 0 {
            self.active_subscriptions = self.active_subscriptions - 1;
        }
    }

    /// Notes that the connection was closed at `now`.
    pub fn record_close(&mut self, now: Timestamp)
        ensures
            *final(self) == (NatsStats {
                is_connected: false,
                last_disconnected: Some(now),
                ..*old(self)
            }),
    {
        self.is_connected = false;
        self.last_disconnected = Some(now);
    }

    /// The counters as those of a broker of any kind. A broker of this kind
    /// keeps no queue.
    pub fn broker_stats(&self) -> (stats: MessageBrokerStats)
        ensures
            stats == (MessageBrokerStats {
                total_messages_sent: self.messages_sent,
                total_messages_received: self.messages_received,
                active_subscriptions: self.active_subscriptions,
                queue_depth: 0,
                error_count: self.error_count,
            }),
    {
        MessageBrokerStats {
            total_messages_sent: self.messages_sent,
            total_messages_received: self.messages_received,
            active_subscriptions: self.active_subscriptions,
            queue_depth: 0,
            error_count: self.error_count,
        }
    }
}

/// What can go wrong on the bus.
#[derive(Debug, PartialEq, Eq)]
pub enum MessageError {
    /// A message could not be written or read.
    Serialization(String),
    /// The broker reported an error.
    Nats(String),
    /// Any other error.
    General(String),
    /// The broker could not be reached.
    Connection { message: String },
    /// A subscription failed.
    Subscription { message: String },
    /// A message is larger than the broker takes.
    MessageTooLarge { size: usize, max_size: usize },
    /// The broker did not answer in time.
    Timeout { message: String },
}

impl MessageError {
    /// The error in words.
    pub open spec fn text(self) -> Seq<char> {
        match self {
            MessageError::Serialization(message) => "Serialization error: "@ + message@,
            MessageError::Nats(message) => "NATS error: "@ + message@,
            MessageError::General(message) => "General error: "@ + message@,
            MessageError::Connection { message } => "Connection error: "@ + message@,
            MessageError::Subscription { message } => "Subscription error: "@ + message@,
            MessageError::MessageTooLarge { size, max_size } => "Message too large: "@ + decimal(
                size as nat,
            ) + " bytes (max: "@ + decimal(max_size as nat) + " bytes)"@,
            MessageError::Timeout { message } => "Timeout error: "@ + message@,
        }
    }

    /// The error in words.
    pub fn to_string(&self) -> (text: String)
        ensures
            text@ == self.text(),
    {
        match self {
            MessageError::Serialization(message) => {
                let mut text = String::from_str("Serialization error: ");
                text.append(message.as_str());
                text
            },
            MessageError::Nats(message) => {
                let mut text = String::from_str("NATS error: ");
                text.append(message.as_str());
                text
            },
            MessageError::General(message) => {
                let mut text = String::from_str("General error: ");
                text.append(message.as_str());
                text
            },
            MessageError::Connection { message } => {
                let mut text = String::from_str("Connection error: ");
                text.append(message.as_str());
                text
            },
            MessageError::Subscription { message } => {
                let mut text = String::from_str("Subscription error: ");
                text.append(message.as_str());
                text
            },
            MessageError::MessageTooLarge { size, max_size } => {
                let size_text = to_decimal(*size as u64);
                let max_text = to_decimal(*max_size as u64);
                let mut text = String::from_str("Message too large: ");
                text.append(size_text.as_str());
                text.append(" bytes (max: ");
                text.append(max_text.as_str());
                text.append(" bytes)");
                text
            },
            MessageError::Timeout { message } => {
                let mut text = String::from_str("Timeout error: ");
                text.append(message.as_str());
                text
            },
        }
    }
}

/// Decides whether a message of `size` bytes, as it goes over the wire, may
/// be published where at most `max_size` bytes are taken. A message of
/// exactly `max_size` bytes may.
pub fn check_publish_size(size: usize, max_size: usize) -> (outcome: Result<(), MessageError>)
    ensures
        size <= max_size ==> outcome.is_ok(),
        size > max_size ==> outcome == Err::<(), MessageError>(
            MessageError::MessageTooLarge { size, max_size },
        ),
{
    if size > max_size {
        Err(MessageError::MessageTooLarge { size, max_size })
    } else {
        Ok(())
    }
}

/// The first delay before a subscription that closed is opened again, in
/// milliseconds.
pub const FIRST_RESUBSCRIBE_DELAY_MS: u64 = 100;

/// The longest delay before a subscription that closed is opened again, in
/// milliseconds.
pub const MAX_RESUBSCRIBE_DELAY_MS: u64 = 30_000;

/// How long to wait before the attempt with the given number, counted from
/// zero, to open a subscription again: a tenth of a second at first, twice
/// as long each time, and never longer than half a minute.
pub open spec fn resubscribe_delay(attempt: nat) -> nat
    decreases attempt,
{
    if attempt == 0 {
        FIRST_RESUBSCRIBE_DELAY_MS as nat
    } else if 2 * resubscribe_delay((attempt - 1) as nat) > MAX_RESUBSCRIBE_DELAY_MS {
        MAX_RESUBSCRIBE_DELAY_MS as nat
    } else {
        2 * resubscribe_delay((attempt - 1) as nat)
    }
}

/// The delay is never longer than half a minute.
pub proof fn lemma_resubscribe_delay_bounded(attempt: nat)
    ensures
        FIRST_RESUBSCRIBE_DELAY_MS <= resubscribe_delay(attempt) <= MAX_RESUBSCRIBE_DELAY_MS,
    decreases attempt,
{
    if attempt > 0 {
        lemma_resubscribe_delay_bounded((attempt - 1) as nat);
    }
}

/// How long to wait before the attempt with the given number, counted from
/// zero, to open a subscription again.
pub fn resubscribe_delay_ms(attempt: u32) -> (delay: u64)
    ensures
        delay == resubscribe_delay(attempt as nat),
{
    let mut delay: u64 = FIRST_RESUBSCRIBE_DELAY_MS;
    let mut done: u32 = 0;
    while done < attempt
        invariant
            done <= attempt,
            delay == resubscribe_delay(done as nat),
            delay <= MAX_RESUBSCRIBE_DELAY_MS,
        decreases attempt - done,
    {
        delay = if 2 * delay > MAX_RESUBSCRIBE_DELAY_MS {
            MAX_RESUBSCRIBE_DELAY_MS
        } else {
            2 * delay
        };
        done = done + 1;
    }
    delay
}

/// The span within which three restarts in a row disable a subscription, in
/// milliseconds.
pub const RESTART_WINDOW_MS: u64 = 60_000;

/// What to do with a delivery task that has failed.
#[derive(Debug, Clone, Copy, PartialEq, Eq, Structural)]
pub enum RestartDecision {
    /// Start the task again.
    Restart,
    /// Give the subscription up and report it.
    Disable,
}

/// Watches over the delivery task of one subscription. It remembers the last
/// two restarts that no delivery has followed.
#[derive(Debug, Clone, Copy, PartialEq, Eq, Structural)]
pub struct RestartGuard {
    /// The restart before the last, if there were two in a row.
    pub earlier: Option<Timestamp>,
    /// The last restart, if no delivery has followed it.
    pub last: Option<Timestamp>,
    /// Whether the subscription has been given up.
    pub disabled: bool,
}

impl RestartGuard {
    /// Whether a failure at `now` is the third in a row within a minute.
    pub open spec fn third_in_a_row(self, now: Timestamp) -> bool {
        self.earlier.is_some() && self.last.is_some() && now - self.earlier.unwrap()
            <= RESTART_WINDOW_MS
    }

    /// The guard after a failure at `now`.
    pub open spec fn after_failure(self, now: Timestamp) -> Self {
        if self.disabled || self.third_in_a_row(now) {
            RestartGuard { disabled: true, ..self }
        } else {
            RestartGuard { earlier: self.last, last: Some(now), disabled: false }
        }
    }

    /// A guard that has seen no failure.
    pub fn new() -> (guard: Self)
        ensures
            guard == (RestartGuard { earlier: None, last: None, disabled: false }),
    {
        RestartGuard { earlier: None, last: None, disabled: false }
    }

    /// Takes note that the delivery task has failed at `now`. The task is
    /// started again, unless this is the third failure in a row within a
    /// minute, or the subscription has been given up before: then it is
    /// given up.
    pub fn note_failure(&mut self, now: Timestamp) -> (decision: RestartDecision)
        ensures
            *final(self) == old(self).after_failure(now),
            decision == if final(self).disabled {
                RestartDecision::Disable
            } else {
                RestartDecision::Restart
            },
    {
        if self.disabled {
            return RestartDecision::Disable;
        }
        let third = match (self.earlier, self.last) {
            (Some(earlier), Some(_)) => now as i128 - earlier as i128 <= RESTART_WINDOW_MS as i128,
            _ => false,
        };
        if third {
            self.disabled = true;
            RestartDecision::Disable
        } else {
            self.earlier = self.last;
            self.last = Some(now);
            RestartDecision::Restart
        }
    }

    /// Takes note that a message has been delivered: the failures before it
    /// no longer count.
    pub fn note_delivery(&mut self)
        ensures
            *final(self) == (RestartGuard { earlier: None, last: None, ..*old(self) }),
    {
        self.earlier = None;
        self.last = None;
    }
}

/// What the delivery task of a subscription does with what came in.
#[derive(Debug, Clone, Copy, PartialEq, Eq, Structural)]
pub enum Relay {
    /// The message was handed on; go on.
    Forwarded,
    /// What came in could not be read; it was counted as an error; go on.
    Skipped,
    /// Nobody listens any more; stop.
    Stop,
}

/// Hands on what came in on a subscription. A message that could be read is
/// sent to the subscriber and counted as received; if the subscriber is gone
/// nothing is counted and the task is to stop. What could not be read is
/// counted as an error.
pub fn relay(stats: &mut NatsStats, subscriber: &UnboundedSender<Message>, incoming: Option<Message>) -> (outcome:
    Relay)
    ensures
        incoming.is_none() ==> outcome == Relay::Skipped,
        incoming.is_some() ==> outcome == Relay::Forwarded || outcome == Relay::Stop,
        *final(stats) == match outcome {
            Relay::Forwarded => NatsStats {
                messages_received: counted(old(stats).messages_received),
                ..*old(stats)
            },
            Relay::Skipped => NatsStats { error_count: counted(old(stats).error_count), ..*old(stats) },
            Relay::Stop => *old(stats),
        },
{
    match incoming {
        Some(message) => relayed(stats, send(subscriber, message)),
        None => {
            stats.record_delivery(false);
            Relay::Skipped
        },
    }
}

/// What comes of handing a message on to a subscriber, given what the queue
/// of the subscriber answered. Where the queue took the message, it is
/// counted as received and the work goes on. Where the queue gave it back,
/// the subscriber is gone: nothing is counted and the work is to stop.
pub fn relayed(stats: &mut NatsStats, sent: Result<(), Message>) -> (outcome: Relay)
    ensures
        sent.is_ok() ==> outcome == Relay::Forwarded && *final(stats) == (NatsStats {
            messages_received: counted(old(stats).messages_received),
            ..*old(stats)
        }),
        sent.is_err() ==> outcome == Relay::Stop && *final(stats) == *old(stats),
{
    match sent {
        Ok(()) => {
            stats.record_delivery(true);
            Relay::Forwarded
        },
        Err(_) => Relay::Stop,
    }
}

/// Position of the first of the given subjects that is the wanted one, or
/// the number of subjects where none is.
pub open spec fn position_of_subject(subjects: Seq<Seq<char>>, wanted: Seq<char>) -> int
    decreases subjects.len(),
{
    if subjects.len() == 0 {
        0
    } else if subjects[0] == wanted {
        0
    } else {
        1 + position_of_subject(subjects.drop_first(), wanted)
    }
}

/// The characters of each subject of a list.
pub open spec fn subject_views(subjects: Seq<String>) -> Seq<Seq<char>> {
    subjects.map_values(|s: String| s@)
}

/// The subscriptions of one process, one per subject.
pub struct MessageSubscriptionManager {
    subjects: Vec<String>,
    senders: Vec<UnboundedSender<Message>>,
}

impl View for MessageSubscriptionManager {
    type V = Seq<Seq<char>>;

    /// The subjects that are subscribed to, in the order of subscription.
    closed spec fn view(&self) -> Seq<Seq<char>> {
        subject_views(self.subjects@)
    }
}

impl MessageSubscriptionManager {
    /// Every subject has its sender.
    pub closed spec fn wf(&self) -> bool {
        self.senders@.len() == self.subjects@.len()
    }

    /// Whether the subject is subscribed to.
    pub open spec fn subscribed(&self, subject: Seq<char>) -> bool {
        position_of_subject(self@, subject) < self@.len()
    }

    /// A manager without subscriptions.
    pub fn new() -> (manager: Self)
        ensures
            manager.wf(),
            manager@ == Seq::<Seq<char>>::empty(),
    {
        let manager = MessageSubscriptionManager { subjects: Vec::new(), senders: Vec::new() };
        assert(manager@ =~= Seq::<Seq<char>>::empty());
        manager
    }

    fn find(&self, subject: &str) -> (at: usize)
        ensures
            at == position_of_subject(self@, subject@),
            at <= self@.len(),
    {
        let wanted = String::from_str(subject);
        let ghost views = subject_views(self.subjects@);
        let mut at: usize = 0;
        assert(views.skip(0) =~= views);
        while at < self.subjects.len() && !(self.subjects[at] == wanted)
            invariant
                at <= self.subjects@.len(),
                wanted@ == subject@,
                views == subject_views(self.subjects@),
                position_of_subject(views, subject@) == at + position_of_subject(
                    views.skip(at as int),
                    subject@,
                ),
            decreases self.subjects@.len() - at,
        {
            proof {
                let rest = views.skip(at as int);
                assert(rest[0] == views[at as int]);
                assert(rest.drop_first() =~= views.skip(at + 1));
            }
            at = at + 1;
        }
        proof {
            let rest = views.skip(at as int);
            if at < self.subjects@.len() {
                assert(rest[0] == views[at as int]);
            }
        }
        at
    }

    /// Subscribes to a subject and returns the end on which its messages
    /// arrive. A subscription to the same subject that was there before is
    /// replaced, which closes it.
    pub fn create_subscription(&mut self, subject: &str) -> (receiver: UnboundedReceiver<Message>)
        requires
            old(self).wf(),
        ensures
            final(self).wf(),
            final(self)@ == if old(self).subscribed(subject@) {
                old(self)@
            } else {
                old(self)@.push(subject@)
            },
            final(self).subscribed(subject@),
    {
        let (sender, receiver) = unbounded_queue::<Message>();
        let at = self.find(subject);
        if at < self.subjects.len() {
            let mut replaced = sender;
            let slot = &mut self.senders[at];
            core::mem::swap(slot, &mut replaced);
        } else {
            self.subjects.push(String::from_str(subject));
            self.senders.push(sender);
            assert(self@ =~= old(self)@.push(subject@));
            proof {
                lemma_position_of_subject_push(old(self)@, subject@);
            }
        }
        receiver
    }

    /// Sends a message to the subscriber of a subject. Where nobody has
    /// subscribed to the subject the message is dropped, which is no error.
    /// Where the subscriber is gone the message comes back as an error.
    pub fn send_message(&self, subject: &str, message: Message) -> (outcome: Result<(), SendError>)
        requires
            self.wf(),
        ensures
            !self.subscribed(subject@) ==> outcome.is_ok(),
            outcome matches Err(error) ==> self.subscribed(subject@) && error.message == message,
    {
        let at = self.find(subject);
        if at < self.subjects.len() {
            sent_outcome(send(&self.senders[at], message))
        } else {
            Ok(())
        }
    }

    /// The subjects that are subscribed to, in the order of subscription.
    pub fn get_subscription_subjects(&self) -> (subjects: Vec<String>)
        ensures
            subject_views(subjects@) == self@,
    {
        let subjects = self.subjects.clone();
        assert(subject_views(subjects@) =~= subject_views(self.subjects@));
        subjects
    }

    /// Ends the subscription to a subject, which closes it. Nothing changes
    /// if there is none.
    pub fn remove_subscription(&mut self, subject: &str)
        requires
            old(self).wf(),
        ensures
            final(self).wf(),
            final(self)@ == if old(self).subscribed(subject@) {
                old(self)@.remove(position_of_subject(old(self)@, subject@))
            } else {
                old(self)@
            },
    {
        let at = self.find(subject);
        if at < self.subjects.len() {
            self.subjects.remove(at);
            self.senders.remove(at);
            assert(self@ =~= old(self)@.remove(at as int));
        }
    }
}

/// A message that could not be sent because its subscriber is gone.
#[derive(Debug, PartialEq, Eq)]
pub struct SendError {
    /// The message, as it was given.
    pub message: Message,
}

/// What comes of handing a message to the queue of a subscriber: success
/// where the queue took it, and the message as an error where the queue
/// gave it back because the subscriber is gone.
pub fn sent_outcome(taken: Result<(), Message>) -> (outcome: Result<(), SendError>)
    ensures
        outcome == match taken {
            Ok(()) => Ok::<(), SendError>(()),
            Err(back) => Err::<(), SendError>((SendError { message: back })),
        },
{
    match taken {
        Ok(()) => Ok(()),
        Err(back) => Err(SendError { message: back }),
    }
}

/// What a subscription gives for what its queue gave: the message where
/// one waited, and nothing where none did, be the queue closed or not.
pub fn received_message(taken: Result<Message, ReceiveFailure>) -> (message: Option<Message>)
    ensures
        message == match taken {
            Ok(waiting) => Some(waiting),
            Err(_) => None::<Message>,
        },
{
    match taken {
        Ok(waiting) => Some(waiting),
        Err(_) => None,
    }
}

/// A subject that is added at the end is found there if it was not there
/// before.
proof fn lemma_position_of_subject_push(subjects: Seq<Seq<char>>, subject: Seq<char>)
    requires
        position_of_subject(subjects, subject) >= subjects.len(),
    ensures
        position_of_subject(subjects.push(subject), subject) == subjects.len(),
    decreases subjects.len(),
{
    if subjects.len() > 0 {
        assert(subjects.push(subject).drop_first() =~= subjects.drop_first().push(subject));
        lemma_position_of_subject_push(subjects.drop_first(), subject);
    }
}

/// The receiving side of a subscription to one subject.
pub struct NatsMessageSubscription {
    subject: String,
    receiver: UnboundedReceiver<Message>,
}

impl NatsMessageSubscription {
    /// The subject of the subscription.
    pub closed spec fn subject(&self) -> Seq<char> {
        self.subject@
    }

    /// A subscription to the given subject that takes its messages from the given queue.
    pub fn new(subject: String, receiver: UnboundedReceiver<Message>) -> (subscription: Self)
        ensures
            subscription.subject() == subject@,
    {
        NatsMessageSubscription { subject, receiver }
    }

    /// The subject of the subscription.
    pub fn subject_name(&self) -> (subject: &str)
        ensures
            subject@ == self.subject(),
    {
        self.subject.as_str()
    }

    /// The next message, if one waits. This never waits itself: it gives
    /// `None` both when nothing has arrived yet and when the subscription is
    /// closed.
    pub fn next_message(&mut self) -> (message: Option<Message>)
        ensures
            final(self).subject() == old(self).subject(),
    {
        received_message(try_receive(&mut self.receiver))
    }

    /// Ends the subscription: its receiving end is dropped, which closes it.
    pub fn unsubscribe(self) {
    }
}

} // verus!
