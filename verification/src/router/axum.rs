//! Calls on their way to an answer, and the router that carries its own
//! fallback.

use vstd::prelude::*;
use crate::body::StreamingBody;
use crate::pattern::{is_service_route, route_name};
use crate::router::simple::SimpleRouter;
use crate::router::{resolve, RegistrationError};
use crate::service::{reports_status, status_response, wraps, Response};
use crate::status::{Status, UNIMPLEMENTED};

verus! {

/// Whether something is there yet.
#[derive(Debug)]
pub enum Poll<T> {
    /// It is.
    Ready(T),
    /// It is not: ask again later.
    Pending,
}

/// A call on its way to its answer.
#[derive(Debug)]
pub enum RoutesFuture<H> {
    /// A handler was found. This is its handle, for this call alone; the
    /// answer is the handler's.
    Forward(H),
    /// No handler was found. The answer reports this status, and no
    /// handler gets to see the call.
    Fallback(Status),
    /// The answer was given.
    Done,
}

/// Whether `future` is what a call to `path` becomes over `table`: a
/// clone of the handler that the table holds for the path, or else the
/// fallback that reports the status with `code` and `message`.
pub open spec fn dispatched_or<H: Clone>(
    table: Map<Seq<char>, H>,
    path: Seq<char>,
    code: u32,
    message: Seq<char>,
    future: RoutesFuture<H>,
) -> bool {
    match resolve(table, path) {
        Some(handle) => future matches RoutesFuture::Forward(copy) && cloned(handle, copy),
        None => future matches RoutesFuture::Fallback(status) && status.spec_code() == code
            && status.spec_message() == message,
    }
}

/// Whether `future` is what a call to `path` becomes over `table` where
/// the fallback reports the call as unimplemented.
pub open spec fn dispatched<H: Clone>(table: Map<Seq<char>, H>, path: Seq<char>, future: RoutesFuture<H>) -> bool {
    dispatched_or(table, path, UNIMPLEMENTED, Seq::empty(), future)
}

/// What a poll may do to a call: `pre` is the call before it, `inner`
/// what the handler's own future said, `post` the call after it and
/// `answer` what the caller is told.
///
/// While a handler works on the call, its answer is handed on as it is,
/// the body wrapped. The fallback answers at once, with the response
/// that reports its status, and does not look at `inner`. A call that
/// was answered stays pending.
pub open spec fn poll_step<H, B>(
    pre: RoutesFuture<H>,
    inner: Poll<Response<B>>,
    post: RoutesFuture<H>,
    answer: Poll<Response<StreamingBody<B>>>,
) -> bool {
    match pre {
        RoutesFuture::Forward(_) => match inner {
            Poll::Ready(given) => {
                &&& answer matches Poll::Ready(response)
                &&& wraps(response, given)
                &&& post is Done
            },
            Poll::Pending => answer is Pending && post == pre,
        },
        RoutesFuture::Fallback(status) => {
            &&& answer matches Poll::Ready(response)
            &&& reports_status(response, status.spec_code(), status.spec_message())
            &&& post is Done
        },
        RoutesFuture::Done => answer is Pending && post is Done,
    }
}

impl<H> RoutesFuture<H> {
    /// Moves the call on, given what the handler's own future said when
    /// it was polled.
    pub fn poll<B>(&mut self, inner: Poll<Response<B>>) -> (answer: Poll<Response<StreamingBody<B>>>)
        ensures
            poll_step(*old(self), inner, *final(self), answer),
    {
        let mut state = RoutesFuture::Done;
        core::mem::swap(self, &mut state);
        match state {
            RoutesFuture::Forward(handle) => match inner {
                Poll::Ready(given) => Poll::Ready(
                    Response {
                        status: given.status,
                        headers: given.headers,
                        body: StreamingBody::new(given.body),
                    },
                ),
                Poll::Pending => {
                    *self = RoutesFuture::Forward(handle);
                    Poll::Pending
                },
            },
            RoutesFuture::Fallback(status) => Poll::Ready(status_response(&status)),
            RoutesFuture::Done => Poll::Pending,
        }
    }
}

/// A router that carries its own fallback: the status that a call to no
/// registered service is answered with.
pub struct AxumRouter<H> {
    routes: SimpleRouter<H>,
    fallback: Status,
}

impl<H> AxumRouter<H> {
    /// The table: each registered service name with its handler.
    pub closed spec fn view(&self) -> Map<Seq<char>, H> {
        self.routes@
    }

    /// The status that the fallback reports.
    pub closed spec fn spec_fallback(&self) -> Status {
        self.fallback
    }

    /// A router without routes whose fallback reports the call as
    /// unimplemented.
    pub fn new() -> (router: Self)
        ensures
            router@ == Map::<Seq<char>, H>::empty(),
            router.spec_fallback().spec_code() == UNIMPLEMENTED,
            router.spec_fallback().spec_message() == Seq::<char>::empty(),
    {
        let fallback = Status::unimplemented();
        assert(fallback.spec_message() =~= Seq::empty());
        AxumRouter { routes: SimpleRouter::new(), fallback }
    }

    /// The same router with `status` as what its fallback reports.
    pub fn fallback(self, status: Status) -> (router: Self)
        ensures
            router@ == self@,
            router.spec_fallback() == status,
    {
        AxumRouter { routes: self.routes, fallback: status }
    }

    /// The number of registered services.
    pub fn len(&self) -> (n: usize)
        ensures
            self@.dom().finite(),
            n == self@.len(),
            n <= u32::MAX,
    {
        self.routes.len()
    }

    /// Registers `svc` under `route`, as `SimpleRouter::route_service`
    /// does. The fallback stays as it is.
    pub fn route_service(&mut self, route: &str, svc: H) -> (r: Result<(), RegistrationError>)
        requires
            old(self)@.len() < u32::MAX,
        ensures
            match r {
                Ok(_) => {
                    &&& is_service_route(route@)
                    &&& !old(self)@.contains_key(route_name(route@))
                    &&& final(self)@ == old(self)@.insert(route_name(route@), svc)
                },
                Err(RegistrationError::Malformed) => {
                    &&& !is_service_route(route@)
                    &&& final(self)@ == old(self)@
                },
                Err(RegistrationError::Duplicate) => {
                    &&& is_service_route(route@)
                    &&& old(self)@.contains_key(route_name(route@))
                    &&& final(self)@ == old(self)@
                },
            },
            final(self).spec_fallback() == old(self).spec_fallback(),
    {
        self.routes.route_service(route, svc)
    }

    /// Takes a call to `path`: with a clone of the handler of the service
    /// that the path addresses, or with the router's fallback where there
    /// is no such service.
    pub fn call(&self, path: &str) -> (future: RoutesFuture<H>) where H: Clone
        ensures
            dispatched_or(
                self@,
                path@,
                self.spec_fallback().spec_code(),
                self.spec_fallback().spec_message(),
                future,
            ),
    {
        match self.routes.lookup(path) {
            Some(handle) => RoutesFuture::Forward(handle.clone()),
            None => RoutesFuture::Fallback(self.fallback.clone()),
        }
    }
}

} // verus!
