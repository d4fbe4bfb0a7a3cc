//! Responses, the outcome of a call, and the handle under which a router
//! holds a service.

use vstd::prelude::*;
use crate::body::{chunk_step, trailers_step, ChunkPoll, DataEvent, StreamingBody, TrailerEvent, TrailersPoll};
use crate::chunk::Chunk;
use crate::metadata::{first_value, MetadataMap};
use crate::status::{decimal_digits, status_entries, Status, UNIMPLEMENTED};

verus! {

/// The transport status that every answer carries, also one that
/// reports a failed call: the failure is in the trailers.
pub const HTTP_OK: u16 = 200;

/// A response: transport status, headers and body.
#[derive(Debug)]
pub struct Response<B> {
    pub status: u16,
    pub headers: MetadataMap,
    pub body: B,
}

/// How a handler was done with a call.
#[derive(Debug)]
pub enum CallOutcome<B> {
    /// The handler answered. The status of the call is in the trailers of
    /// the body.
    Success(Response<B>),
    /// There is no answer to hand on, only a status.
    Failure(Status),
}

/// Whether `response` is the answer that reports a status and nothing
/// else: transport status 200, the content type of the protocol as its
/// only header, and a body without data that ends at once and then gives
/// the status as its trailers.
pub open spec fn reports_status<S>(response: Response<StreamingBody<S>>, code: u32, message: Seq<char>) -> bool {
    &&& response.status == HTTP_OK
    &&& response.headers@ == seq![("content-type"@, "application/grpc"@)]
    &&& response.body.source() is None
    &&& !response.body.ended()
    &&& !response.body.settled()
    &&& !response.body.copies()
    &&& response.body.held() matches Some(trailers) && trailers@ == status_entries(code, message)
}

/// Whether `wrapped` is `response` with its body taken as the source of
/// a new streaming body, and nothing else changed.
pub open spec fn wraps<B>(wrapped: Response<StreamingBody<B>>, response: Response<B>) -> bool {
    &&& wrapped.status == response.status
    &&& wrapped.headers == response.headers
    &&& wrapped.body.source() == Some(response.body)
    &&& wrapped.body.fresh()
    &&& !wrapped.body.copies()
}

/// An answer that reports a status carries no data. Asked for a chunk,
/// its body says at once that the data has ended, whatever the event;
/// asked for the trailers after that, it gives the status, the code in
/// decimal under `grpc-status`.
pub proof fn lemma_status_answer<S, D: Chunk, E>(
    response: Response<StreamingBody<S>>,
    code: u32,
    message: Seq<char>,
    event: DataEvent<D, E>,
    ended: StreamingBody<S>,
    first: ChunkPoll<D, E>,
    trailer_event: TrailerEvent<E>,
    done: StreamingBody<S>,
    second: TrailersPoll<E>,
)
    requires
        reports_status(response, code, message),
        chunk_step(response.body, event, ended, first),
        trailers_step(ended, trailer_event, done, second),
    ensures
        first is EndOfData,
        second matches TrailersPoll::Ready(Some(trailers)) && trailers@ == status_entries(code, message),
        first_value(status_entries(code, message), "grpc-status"@) == Some(decimal_digits(code as nat)),
{
}

/// The code of a call that no handler exists for, in decimal, is `12`.
pub proof fn lemma_unimplemented_code()
    ensures
        decimal_digits(UNIMPLEMENTED as nat) == "12"@,
{
    reveal_strlit("12");
    reveal_with_fuel(decimal_digits, 2);
    assert(decimal_digits(12) =~= "12"@);
}

/// The answer that reports `status` and nothing else.
pub fn status_response<S>(status: &Status) -> (response: Response<StreamingBody<S>>)
    ensures
        reports_status(response, status.spec_code(), status.spec_message()),
{
    let mut headers = MetadataMap::new();
    headers.append("content-type", "application/grpc");
    assert(headers@ =~= seq![("content-type"@, "application/grpc"@)]);
    Response { status: HTTP_OK, headers, body: StreamingBody::empty(status) }
}

/// The answer to a call that no handler exists for.
pub fn unimplemented<S>() -> (response: Response<StreamingBody<S>>)
    ensures
        reports_status(response, UNIMPLEMENTED, Seq::empty()),
{
    let status = Status::unimplemented();
    let response = status_response(&status);
    assert(status.spec_message() =~= Seq::empty());
    response
}

impl<B> CallOutcome<B> {
    /// The response that the caller gets: the handler's own, with its
    /// body wrapped, or the one that reports the status of the failure.
    pub fn into_response(self) -> (response: Response<StreamingBody<B>>)
        ensures
            match self {
                CallOutcome::Success(given) => wraps(response, given),
                CallOutcome::Failure(status) => reports_status(
                    response,
                    status.spec_code(),
                    status.spec_message(),
                ),
            },
    {
        match self {
            CallOutcome::Success(given) => Response {
                status: given.status,
                headers: given.headers,
                body: StreamingBody::new(given.body),
            },
            CallOutcome::Failure(status) => status_response(&status),
        }
    }
}

/// A service as a router holds it: the service itself, behind whatever
/// hides its type, and the name under which it is registered.
#[derive(Debug)]
pub struct ServiceHandle<C> {
    name: String,
    service: C,
}

impl<C> ServiceHandle<C> {
    /// The name of the service.
    pub closed spec fn spec_name(&self) -> Seq<char> {
        self.name@
    }

    /// The service.
    pub closed spec fn spec_service(&self) -> C {
        self.service
    }

    /// The handle of `service` under `name`.
    pub fn new(name: &str, service: C) -> (handle: Self)
        ensures
            handle.spec_name() == name@,
            handle.spec_service() == service,
    {
        ServiceHandle { name: String::from_str(name), service }
    }

    /// The name of the service.
    pub fn name(&self) -> (name: &str)
        ensures
            name@ == self.spec_name(),
    {
        self.name.as_str()
    }

    /// The service.
    pub fn service(&self) -> (service: &C)
        ensures
            *service == self.spec_service(),
    {
        &self.service
    }

    /// The service, to be called.
    pub fn service_mut(&mut self) -> (service: &mut C)
        ensures
            *service == old(self).spec_service(),
            final(self).spec_service() == *final(service),
            final(self).spec_name() == old(self).spec_name(),
    {
        &mut self.service
    }

    /// Gives the service back.
    pub fn into_service(self) -> (service: C)
        ensures
            service == self.spec_service(),
    {
        self.service
    }
}

/// A handle that a router can hold, which knows the answer to a call
/// that reaches no handle.
pub trait BoxCloneService<S>: Clone {
    /// The answer to a call that no handler exists for.
    fn empty_response() -> (response: Response<StreamingBody<S>>)
        ensures
            reports_status(response, UNIMPLEMENTED, Seq::empty()),
    ;
}

impl<C: Clone, S> BoxCloneService<S> for ServiceHandle<C> {
    fn empty_response() -> (response: Response<StreamingBody<S>>) {
        unimplemented()
    }
}

impl<C: Clone> Clone for ServiceHandle<C> {
    /// A second handle of the same service: the name is the same, the
    /// service a clone.
    fn clone(&self) -> (copy: Self)
        ensures
            copy.spec_name() == self.spec_name(),
            cloned(self.spec_service(), copy.spec_service()),
    {
        ServiceHandle { name: self.name.clone(), service: self.service.clone() }
    }
}

} // verus!
