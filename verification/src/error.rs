//! The errors of the swarm as a whole.

use vstd::prelude::*;

verus! {

/// What went wrong in the swarm, with the words of the part that failed.
#[derive(Debug, PartialEq, Eq)]
pub enum SwarmError {
    /// A worker failed.
    Worker(String),
    /// A task failed.
    Task(String),
    /// Two parts of the swarm could not reach each other.
    Communication(String),
    /// The coordination of the swarm failed.
    Coordination(String),
    /// Something could not be read or written.
    Io(String),
    /// A value could not be encoded or decoded.
    Serialization(String),
}

/// The mathematical value of a [`SwarmError`].
pub enum SwarmErrorView {
    Worker(Seq<char>),
    Task(Seq<char>),
    Communication(Seq<char>),
    Coordination(Seq<char>),
    Io(Seq<char>),
    Serialization(Seq<char>),
}

impl SwarmErrorView {
    /// The error in words.
    pub open spec fn text(self) -> Seq<char> {
        match self {
            SwarmErrorView::Worker(message) => "Worker error: "@ + message,
            SwarmErrorView::Task(message) => "Task error: "@ + message,
            SwarmErrorView::Communication(message) => "Communication error: "@ + message,
            SwarmErrorView::Coordination(message) => "Coordination error: "@ + message,
            SwarmErrorView::Io(message) => "IO error: "@ + message,
            SwarmErrorView::Serialization(message) => "Serialization error: "@ + message,
        }
    }
}

impl View for SwarmError {
    type V = SwarmErrorView;

    open spec fn view(&self) -> SwarmErrorView {
        match self {
            SwarmError::Worker(message) => SwarmErrorView::Worker(message@),
            SwarmError::Task(message) => SwarmErrorView::Task(message@),
            SwarmError::Communication(message) => SwarmErrorView::Communication(message@),
            SwarmError::Coordination(message) => SwarmErrorView::Coordination(message@),
            SwarmError::Io(message) => SwarmErrorView::Io(message@),
            SwarmError::Serialization(message) => SwarmErrorView::Serialization(message@),
        }
    }
}

impl SwarmError {
    /// The error in words.
    pub fn to_string(&self) -> (text: String)
        ensures
            text@ == self@.text(),
    {
        let (prefix, message): (&'static str, &String) = match self {
            SwarmError::Worker(message) => ("Worker error: ", message),
            SwarmError::Task(message) => ("Task error: ", message),
            SwarmError::Communication(message) => ("Communication error: ", message),
            SwarmError::Coordination(message) => ("Coordination error: ", message),
            SwarmError::Io(message) => ("IO error: ", message),
            SwarmError::Serialization(message) => ("Serialization error: ", message),
        };
        let mut text = String::from_str(prefix);
        text.append(message.as_str());
        text
    }
}

} // verus!
