//! What goes wrong, and whether it is worth another try.

use std::io::ErrorKind;
use vstd::prelude::*;

verus! {

/// The kind of a failed input or output operation.
#[verifier::external_type_specification]
#[verifier::external_body]
pub struct ExErrorKind(std::io::ErrorKind);

/// Why a call came to nothing.
#[derive(Debug)]
pub enum Fault {
    /// It may go better another time.
    Retryable(String),
    /// It will go the same another time.
    Permanent(String),
    /// The other side said what the protocol has no place for; never worth
    /// another try.
    Protocol(String),
    /// The connection failed while `doing` something; whether that is worth
    /// another try is for its kind to say.
    Connection { doing: String, kind: ErrorKind, message: String },
}

/// A [`Fault`] with its texts as characters.
pub enum FaultView {
    Retryable(Seq<char>),
    Permanent(Seq<char>),
    Protocol(Seq<char>),
    Connection { doing: Seq<char>, kind: ErrorKind, message: Seq<char> },
}

impl View for Fault {
    type V = FaultView;

    open spec fn view(&self) -> FaultView {
        match self {
            Fault::Retryable(message) => FaultView::Retryable(message@),
            Fault::Permanent(message) => FaultView::Permanent(message@),
            Fault::Protocol(message) => FaultView::Protocol(message@),
            Fault::Connection { doing, kind, message } => FaultView::Connection {
                doing: doing@,
                kind: *kind,
                message: message@,
            },
        }
    }
}

impl FaultView {
    /// Whether another try is worth it, where the fault itself says so.
    pub open spec fn retryable(self) -> Option<bool> {
        match self {
            FaultView::Retryable(_) => Some(true),
            FaultView::Permanent(_) => Some(false),
            FaultView::Protocol(_) => Some(false),
            FaultView::Connection { .. } => None,
        }
    }
}

impl Fault {
    /// Whether another try is worth it; nothing where the kind of the failed
    /// connection decides.
    pub fn retryable(&self) -> (r: Option<bool>)
        ensures
            r == self@.retryable(),
    {
        match self {
            Fault::Retryable(_) => Some(true),
            Fault::Permanent(_) => Some(false),
            Fault::Protocol(_) => Some(false),
            Fault::Connection { .. } => None,
        }
    }
}

/// A fault of the protocol, in these words.
pub fn protocol_error(message: &str) -> (r: Fault)
    ensures
        r@ == FaultView::Protocol(message@),
{
    Fault::Protocol(message.to_owned())
}

} // verus!
