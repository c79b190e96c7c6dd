//! The envelope every handler answers with.

use vstd::prelude::*;

verus! {

/// Whether a request was served.
#[derive(Clone, Copy, Debug, PartialEq, Eq, Structural)]
pub enum ResponderStatus {
    Success,
    Error,
}

/// What went wrong: an identifier, empty for a plain storage failure, and a
/// message.
#[derive(Debug, PartialEq, Eq)]
pub struct ResponderError {
    pub id: String,
    pub message: String,
}

/// The mathematical value of a [`ResponderError`].
pub ghost struct ResponderErrorView {
    pub id: Seq<char>,
    pub message: Seq<char>,
}

impl View for ResponderError {
    type V = ResponderErrorView;

    open spec fn view(&self) -> ResponderErrorView {
        ResponderErrorView { id: self.id@, message: self.message@ }
    }
}

impl ResponderError {
    /// The generic storage failure: no identifier, only a message.
    pub fn storage(message: String) -> (error: ResponderError)
        ensures
            error.id@ == Seq::<char>::empty(),
            error.message == message,
    {
        ResponderError { id: String::new(), message }
    }

    /// A copy of the error.
    pub fn duplicate(&self) -> (copy: ResponderError)
        ensures
            copy == *self,
    {
        ResponderError { id: self.id.clone(), message: self.message.clone() }
    }
}

/// The response envelope: a status, a payload on success and an error on
/// failure.
#[derive(Debug, PartialEq, Eq)]
pub struct Responder<P> {
    pub status: ResponderStatus,
    pub payload: Option<P>,
    pub error: Option<ResponderError>,
}

impl<P> Responder<P> {
    /// The envelope of a served request that carries `payload`.
    pub open spec fn success(payload: P) -> Responder<P> {
        Responder { status: ResponderStatus::Success, payload: Some(payload), error: None }
    }

    /// The envelope of a failed request.
    pub open spec fn failure(error: ResponderError) -> Responder<P> {
        Responder { status: ResponderStatus::Error, payload: None, error: Some(error) }
    }

    /// The envelope that an operation's result is answered with.
    pub open spec fn of(result: Result<P, ResponderError>) -> Responder<P> {
        match result {
            Ok(payload) => Self::success(payload),
            Err(error) => Self::failure(error),
        }
    }

    /// True of an envelope that carries a payload exactly when it reports
    /// success, and an error exactly when it does not.
    pub open spec fn well_formed(self) -> bool {
        match self.status {
            ResponderStatus::Success => self.payload is Some && self.error is None,
            ResponderStatus::Error => self.payload is None && self.error is Some,
        }
    }
}

/// The mathematical value of a [`Responder`].
pub ghost struct ResponderView<P> {
    pub status: ResponderStatus,
    pub payload: Option<P>,
    pub error: Option<ResponderErrorView>,
}

impl<P> View for Responder<P> {
    type V = ResponderView<P>;

    open spec fn view(&self) -> ResponderView<P> {
        ResponderView {
            status: self.status,
            payload: self.payload,
            error: match self.error {
                Some(error) => Some(error@),
                None => None,
            },
        }
    }
}

/// The envelope of the offload mechanism's outcome: the handler's own
/// envelope where the offloaded work ran to its end, else an error envelope
/// with the mechanism's message and no identifier.
pub open spec fn offloaded<P>(outcome: Result<Responder<P>, BlockingFailure>) -> ResponderView<P> {
    match outcome {
        Ok(responder) => responder@,
        Err(failure) => ResponderView {
            status: ResponderStatus::Error,
            payload: None,
            error: Some(ResponderErrorView { id: Seq::empty(), message: failure.message@ }),
        },
    }
}

/// The offload mechanism failed before the handler's work was done.
#[derive(Debug, PartialEq, Eq)]
pub struct BlockingFailure {
    pub message: String,
}

impl<P> Default for Responder<P> {
    /// Success with neither payload nor error.
    fn default() -> (responder: Responder<P>)
        ensures
            responder.status == ResponderStatus::Success,
            responder.payload is None,
            responder.error is None,
    {
        Responder { status: ResponderStatus::Success, payload: None, error: None }
    }
}

impl<P> From<ResponderError> for Responder<P> {
    fn from(value: ResponderError) -> (responder: Responder<P>) {
        Responder { status: ResponderStatus::Error, payload: None, error: Some(value) }
    }
}

impl<P> vstd::std_specs::convert::FromSpecImpl<ResponderError> for Responder<P> {
    open spec fn obeys_from_spec() -> bool {
        true
    }

    open spec fn from_spec(value: ResponderError) -> Responder<P> {
        Responder::failure(value)
    }
}

impl<P> From<Result<P, ResponderError>> for Responder<P> {
    fn from(value: Result<P, ResponderError>) -> (responder: Responder<P>) {
        match value {
            Ok(result) => Responder {
                status: ResponderStatus::Success,
                payload: Some(result),
                error: None,
            },
            Err(error) => Responder {
                status: ResponderStatus::Error,
                payload: None,
                error: Some(error),
            },
        }
    }
}

impl<P> vstd::std_specs::convert::FromSpecImpl<Result<P, ResponderError>> for Responder<P> {
    open spec fn obeys_from_spec() -> bool {
        true
    }

    open spec fn from_spec(value: Result<P, ResponderError>) -> Responder<P> {
        Responder::of(value)
    }
}

impl<P> Responder<P> {
    /// Folds a failure of the offload mechanism into the envelope.
    pub fn from_offloaded(outcome: Result<Responder<P>, BlockingFailure>) -> (responder: Responder<P>)
        ensures
            responder@ == offloaded(outcome),
    {
        match outcome {
            Ok(responder) => responder,
            Err(failure) => Responder {
                status: ResponderStatus::Error,
                payload: None,
                error: Some(ResponderError::storage(failure.message)),
            },
        }
    }
}

/// An operation's result in its envelope is well formed, reports success
/// exactly for a result that is one, and keeps the failure's message.
pub proof fn lemma_envelope_of_result<P>(result: Result<P, ResponderError>)
    ensures
        Responder::of(result).well_formed(),
        result is Ok <==> Responder::of(result).status == ResponderStatus::Success,
        result matches Ok(payload) ==> Responder::of(result).payload == Some(payload),
        result matches Err(error) ==> Responder::<P>::of(result).error == Some(error),
{
}

} // verus!
