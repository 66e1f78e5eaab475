//! Messages: the framed unit that travels over the bus, and the checks that
//! a message has to pass.

use crate::textmap::TextMap;
use crate::text::str_eq;
use crate::types::{MessageId, Timestamp};
use vstd::prelude::*;

verus! {

/// The longest time to live that a message may ask for: one hour, in
/// milliseconds.
pub const MAX_TTL_MS: u64 = 3_600_000;

/// A message: a payload with the subject it is addressed to, the headers that
/// describe it, and how long it is worth delivering.
#[derive(Debug, PartialEq, Eq)]
pub struct Message {
    pub id: MessageId,
    pub subject: String,
    pub payload: Vec<u8>,
    pub headers: TextMap,
    pub timestamp: Timestamp,
    /// Time to live in milliseconds, if the message has one.
    pub ttl_ms: Option<u64>,
}

/// The mathematical value of a [`Message`].
pub struct MessageView {
    pub id: MessageId,
    pub subject: Seq<char>,
    pub payload: Seq<u8>,
    pub headers: Seq<(Seq<char>, Seq<char>)>,
    pub timestamp: Timestamp,
    pub ttl_ms: Option<u64>,
}

impl View for Message {
    type V = MessageView;

    open spec fn view(&self) -> MessageView {
        MessageView {
            id: self.id,
            subject: self.subject@,
            payload: self.payload@,
            headers: self.headers@,
            timestamp: self.timestamp,
            ttl_ms: self.ttl_ms,
        }
    }
}

impl Clone for Message {
    fn clone(&self) -> (copy: Self)
        ensures
            copy@ == self@,
    {
        Message {
            id: self.id,
            subject: self.subject.clone(),
            payload: self.payload.clone(),
            headers: self.headers.clone(),
            timestamp: self.timestamp,
            ttl_ms: self.ttl_ms,
        }
    }
}

impl MessageView {
    /// The message is no longer worth delivering at `now`: it has a time to
    /// live, and more time than that has passed since it was made.
    pub open spec fn expired(self, now: Timestamp) -> bool {
        match self.ttl_ms {
            Some(ttl) => now - self.timestamp > ttl,
            None => false,
        }
    }
}

impl Message {
    /// Whether the message is no longer worth delivering at `now`. A message
    /// without a time to live never expires.
    pub fn is_expired(&self, now: Timestamp) -> (expired: bool)
        ensures
            expired == self@.expired(now),
    {
        match self.ttl_ms {
            Some(ttl) => now as i128 - self.timestamp as i128 > ttl as i128,
            None => false,
        }
    }
}

/// Number of bytes that a text takes in UTF-8.
pub open spec fn byte_len(text: Seq<char>) -> nat {
    vstd::utf8::encode_utf8(text).len()
}

/// Why a message was rejected.
#[derive(Debug, Clone, Copy, PartialEq, Eq, Structural)]
pub enum ValidationError {
    /// The subject is empty.
    EmptySubject,
    /// The payload is empty.
    EmptyPayload,
    /// The identifier is nil.
    NilId,
    /// The message takes more bytes on the wire than allowed.
    TooLarge { size: usize, max_size: usize },
    /// The time to live is zero.
    ZeroTtl,
    /// The time to live is longer than an hour.
    TtlTooLong,
    /// A header that the subject calls for is missing.
    MissingHeader,
}

/// Why the structure of a message is rejected, if it is: an empty subject,
/// an empty payload, or a nil identifier, in this order.
pub open spec fn structure_error(message: MessageView) -> Option<ValidationError> {
    if message.subject.len() == 0 {
        Some(ValidationError::EmptySubject)
    } else if message.payload.len() == 0 {
        Some(ValidationError::EmptyPayload)
    } else if message.id == 0 {
        Some(ValidationError::NilId)
    } else {
        None
    }
}

/// Why a message of the given size on the wire is rejected under the given
/// limit, if it is: it is larger than the limit.
pub open spec fn size_error(serialized_size: usize, max_size: usize) -> Option<ValidationError> {
    if serialized_size > max_size {
        Some(ValidationError::TooLarge { size: serialized_size, max_size })
    } else {
        None
    }
}

/// Why the time to live of a message is rejected, if it is: it is zero, or
/// longer than an hour. A message without a time to live passes.
pub open spec fn ttl_error(message: MessageView) -> Option<ValidationError> {
    match message.ttl_ms {
        Some(ttl) => if ttl == 0 {
            Some(ValidationError::ZeroTtl)
        } else if ttl > MAX_TTL_MS {
            Some(ValidationError::TtlTooLong)
        } else {
            None
        },
        None => None,
    }
}

/// The headers that a message on the given subject has to carry: the
/// identifier of the document on the subject of incoming documents, the
/// identifier of the task with its priority on the subject of assignments
/// and with its status on that of results, the identifier of the worker on
/// the subjects of workers, and the identifier and type of the component on
/// that of heartbeats.
pub open spec fn required_headers(subject: Seq<char>) -> Seq<Seq<char>> {
    if subject == "swarm.documents.incoming"@ {
        seq!["document-id"@]
    } else if subject == "swarm.tasks.assignments"@ {
        seq!["task-id"@, "priority"@]
    } else if subject == "swarm.tasks.results"@ {
        seq!["task-id"@, "status"@]
    } else if subject == "swarm.workers.registration"@ || subject == "swarm.workers.health"@
        || subject == "swarm.workers.status"@ {
        seq!["worker-id"@]
    } else if subject == "swarm.heartbeat"@ {
        seq!["component-id"@, "component-type"@]
    } else {
        seq![]
    }
}

/// Whether the message carries every header that its subject calls for.
pub open spec fn has_required_headers(message: MessageView) -> bool {
    forall|i: int|
        0 <= i < required_headers(message.subject).len() ==> crate::textmap::lookup(
            message.headers,
            #[trigger] required_headers(message.subject)[i],
        ).is_some()
}

/// The checks that a message has to pass.
pub struct MessageValidator;

impl MessageValidator {
    /// Checks the structure of a message: the subject and the payload must
    /// not be empty and the identifier must not be nil.
    pub fn validate_message(message: &Message) -> (outcome: Result<(), ValidationError>)
        ensures
            outcome == match structure_error(message@) {
                Some(error) => Err::<(), ValidationError>(error),
                None => Ok::<(), ValidationError>(()),
            },
    {
        if message.subject.as_str().unicode_len() == 0 {
            return Err(ValidationError::EmptySubject);
        }
        if message.payload.len() == 0 {
            return Err(ValidationError::EmptyPayload);
        }
        if message.id == 0 {
            return Err(ValidationError::NilId);
        }
        Ok(())
    }

    /// Checks the size of a message against a limit. The size of a message
    /// is the number of bytes that it takes on the wire, all of it, as the
    /// one who wrote it there hands it in. A message whose size is exactly
    /// the limit passes.
    pub fn validate_message_size(serialized_size: usize, max_size: usize) -> (outcome: Result<
        (),
        ValidationError,
    >)
        ensures
            outcome == match size_error(serialized_size, max_size) {
                Some(error) => Err::<(), ValidationError>(error),
                None => Ok::<(), ValidationError>(()),
            },
    {
        if serialized_size > max_size {
            Err(ValidationError::TooLarge { size: serialized_size, max_size })
        } else {
            Ok(())
        }
    }

    /// Checks the time to live of a message: if there is one, it must be at
    /// least one millisecond and at most an hour.
    pub fn validate_message_ttl(message: &Message) -> (outcome: Result<(), ValidationError>)
        ensures
            outcome == match ttl_error(message@) {
                Some(error) => Err::<(), ValidationError>(error),
                None => Ok::<(), ValidationError>(()),
            },
    {
        match message.ttl_ms {
            Some(ttl) => {
                if ttl == 0 {
                    Err(ValidationError::ZeroTtl)
                } else if ttl > MAX_TTL_MS {
                    Err(ValidationError::TtlTooLong)
                } else {
                    Ok(())
                }
            },
            None => Ok(()),
        }
    }

    /// Checks that a message carries the headers that its subject calls for.
    pub fn validate_message_headers(message: &Message) -> (outcome: Result<(), ValidationError>)
        ensures
            outcome == if has_required_headers(message@) {
                Ok::<(), ValidationError>(())
            } else {
                Err::<(), ValidationError>(ValidationError::MissingHeader)
            },
    {
        let subject = message.subject.as_str();
        let mut required: Vec<&'static str> = Vec::new();
        if str_eq(subject, "swarm.documents.incoming") {
            required.push("document-id");
        } else if str_eq(subject, "swarm.tasks.assignments") {
            required.push("task-id");
            required.push("priority");
        } else if str_eq(subject, "swarm.tasks.results") {
            required.push("task-id");
            required.push("status");
        } else if str_eq(subject, "swarm.workers.registration") || str_eq(
            subject,
            "swarm.workers.health",
        ) || str_eq(subject, "swarm.workers.status") {
            required.push("worker-id");
        } else if str_eq(subject, "swarm.heartbeat") {
            required.push("component-id");
            required.push("component-type");
        }
        assert(crate::text::str_views(required@) =~= required_headers(message@.subject));
        let mut i: usize = 0;
        while i < required.len()
            invariant
                i <= required@.len(),
                crate::text::str_views(required@) == required_headers(message@.subject),
                forall|j: int|
                    0 <= j < i ==> crate::textmap::lookup(
                        message@.headers,
                        #[trigger] required_headers(message@.subject)[j],
                    ).is_some(),
            decreases required@.len() - i,
        {
            assert(crate::text::str_views(required@)[i as int] == required@[i as int]@);
            if !message.headers.contains_key(required[i]) {
                return Err(ValidationError::MissingHeader);
            }
            i = i + 1;
        }
        Ok(())
    }
}

} // verus!
