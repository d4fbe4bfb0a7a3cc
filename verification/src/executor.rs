//! The two concurrency modes, and what each of them lets be wrapped.
//!
//! Work either may move between the threads of a pool (shared) or stays
//! on the thread that created it (local). The routing and the bodies are
//! written once for both. The mode decides one thing only: in the shared
//! mode whatever is wrapped must be `Send`.

use vstd::prelude::*;
use crate::body::StreamingBody;
use crate::service::ServiceHandle;
use crate::status::{status_entries, Status};

verus! {

/// How work is scheduled.
#[derive(Clone, Copy, Debug, PartialEq, Eq, Structural)]
pub enum ConcurrencyMode {
    /// Work may run on any thread of a pool.
    Shared,
    /// Work runs on the thread that scheduled it.
    Local,
}

/// A type that stands for one of the two modes.
pub trait Mode {
    /// The mode that the type stands for.
    spec fn spec_mode() -> ConcurrencyMode;

    /// The mode that the type stands for.
    fn mode() -> (mode: ConcurrencyMode)
        ensures
            mode == Self::spec_mode(),
    ;
}

/// The shared mode, for connections.
#[derive(Default, Copy, Clone)]
pub struct TokioExec;

/// The local mode, for connections.
#[derive(Default, Copy, Clone)]
pub struct LocalExec;

/// The shared mode, for servers.
#[derive(Default, Copy, Clone)]
pub struct MultiThreadExecutor;

/// The local mode, for servers.
#[derive(Default, Copy, Clone)]
pub struct LocalExecutor;

impl Mode for TokioExec {
    open spec fn spec_mode() -> ConcurrencyMode {
        ConcurrencyMode::Shared
    }

    fn mode() -> (mode: ConcurrencyMode) {
        ConcurrencyMode::Shared
    }
}

impl Mode for LocalExec {
    open spec fn spec_mode() -> ConcurrencyMode {
        ConcurrencyMode::Local
    }

    fn mode() -> (mode: ConcurrencyMode) {
        ConcurrencyMode::Local
    }
}

impl Mode for MultiThreadExecutor {
    open spec fn spec_mode() -> ConcurrencyMode {
        ConcurrencyMode::Shared
    }

    fn mode() -> (mode: ConcurrencyMode) {
        ConcurrencyMode::Shared
    }
}

impl Mode for LocalExecutor {
    open spec fn spec_mode() -> ConcurrencyMode {
        ConcurrencyMode::Local
    }

    fn mode() -> (mode: ConcurrencyMode) {
        ConcurrencyMode::Local
    }
}

/// Holds of a mode and a type where the mode may wrap values of the
/// type: of the shared modes for types that are `Send`, of the local
/// modes for all types.
pub trait MaybeSend<B> {

}

impl<B: Send> MaybeSend<B> for TokioExec {

}

impl<B> MaybeSend<B> for LocalExec {

}

impl<B: Send> MaybeSend<B> for MultiThreadExecutor {

}

impl<B> MaybeSend<B> for LocalExecutor {

}

/// Holds of a mode and a type where the mode may run the bodies of
/// responses of that type.
pub trait ResBodyExecutor<ResBody> {

}

impl<ResBody: Send + 'static> ResBodyExecutor<ResBody> for TokioExec {

}

impl<ResBody: 'static> ResBodyExecutor<ResBody> for LocalExec {

}

/// A mode that makes bodies without data.
pub trait HasBoxBody<S> {
    /// A body without data that ends at once and then reports `status`
    /// in its trailers.
    fn empty_body(status: &Status) -> (body: StreamingBody<S>)
        ensures
            body.source() is None,
            !body.ended(),
            !body.settled(),
            !body.copies(),
            body.held() matches Some(trailers) && trailers@ == status_entries(
                status.spec_code(),
                status.spec_message(),
            ),
    ;
}

impl<S: Send> HasBoxBody<S> for TokioExec {
    fn empty_body(status: &Status) -> (body: StreamingBody<S>) {
        crate::body::empty_body(status)
    }
}

impl<S> HasBoxBody<S> for LocalExec {
    fn empty_body(status: &Status) -> (body: StreamingBody<S>) {
        crate::body::local_empty_body(status)
    }
}

/// A mode that wraps sources of type `B` into bodies.
pub trait MakeBoxBody<B>: MaybeSend<B> {
    /// A body over `body` that hands each chunk on as it is.
    fn make_box_body(body: B) -> (boxed: StreamingBody<B>)
        ensures
            boxed.source() == Some(body),
            boxed.fresh(),
            !boxed.copies(),
    ;

    /// A body over `body` that gathers each chunk into one buffer
    /// before it hands it on.
    fn copy_to_box_body(body: B) -> (boxed: StreamingBody<B>)
        ensures
            boxed.source() == Some(body),
            boxed.fresh(),
            boxed.copies(),
    ;
}

impl<B: Send + 'static> MakeBoxBody<B> for TokioExec {
    fn make_box_body(body: B) -> (boxed: StreamingBody<B>) {
        StreamingBody::new(body)
    }

    fn copy_to_box_body(body: B) -> (boxed: StreamingBody<B>) {
        StreamingBody::copying(body)
    }
}

impl<B: 'static> MakeBoxBody<B> for LocalExec {
    fn make_box_body(body: B) -> (boxed: StreamingBody<B>) {
        StreamingBody::new(body)
    }

    fn copy_to_box_body(body: B) -> (boxed: StreamingBody<B>) {
        StreamingBody::copying(body)
    }
}

impl<B: Send + 'static> MakeBoxBody<B> for MultiThreadExecutor {
    fn make_box_body(body: B) -> (boxed: StreamingBody<B>) {
        StreamingBody::new(body)
    }

    fn copy_to_box_body(body: B) -> (boxed: StreamingBody<B>) {
        StreamingBody::copying(body)
    }
}

impl<B: 'static> MakeBoxBody<B> for LocalExecutor {
    fn make_box_body(body: B) -> (boxed: StreamingBody<B>) {
        StreamingBody::new(body)
    }

    fn copy_to_box_body(body: B) -> (boxed: StreamingBody<B>) {
        StreamingBody::copying(body)
    }
}

/// A mode that turns any source of type `B` into a body.
pub trait Boxed<B>: MaybeSend<B> + HasBoxBody<B> {
    /// A body over `body`.
    fn boxed(body: B) -> (boxed: StreamingBody<B>)
        ensures
            boxed.source() == Some(body),
            boxed.fresh(),
            !boxed.copies(),
    ;
}

impl<B: Send + 'static> Boxed<B> for TokioExec {
    fn boxed(body: B) -> (boxed: StreamingBody<B>) {
        StreamingBody::new(body)
    }
}

impl<B: 'static> Boxed<B> for LocalExec {
    fn boxed(body: B) -> (boxed: StreamingBody<B>) {
        StreamingBody::new(body)
    }
}

/// A mode that wraps the bodies of the responses which futures of type
/// `F` give.
pub trait FutureExecutor<F, ResBody>: ResBodyExecutor<ResBody> {
    /// A body over `body`.
    fn box_http_body(body: ResBody) -> (boxed: StreamingBody<ResBody>)
        ensures
            boxed.source() == Some(body),
            boxed.fresh(),
            !boxed.copies(),
    ;
}

impl<F, ResBody: Send + 'static> FutureExecutor<F, ResBody> for TokioExec {
    fn box_http_body(body: ResBody) -> (boxed: StreamingBody<ResBody>) {
        StreamingBody::new(body)
    }
}

impl<F, ResBody: 'static> FutureExecutor<F, ResBody> for LocalExec {
    fn box_http_body(body: ResBody) -> (boxed: StreamingBody<ResBody>) {
        StreamingBody::new(body)
    }
}

/// A mode that wraps services of type `S` into handles.
pub trait MakeBoxCloneService<S> {
    /// The handle of `svc` under `name`.
    fn box_clone_service(name: &str, svc: S) -> (handle: ServiceHandle<S>)
        ensures
            handle.spec_name() == name@,
            handle.spec_service() == svc,
    ;
}

impl<S: Clone + Send + 'static> MakeBoxCloneService<S> for TokioExec {
    fn box_clone_service(name: &str, svc: S) -> (handle: ServiceHandle<S>) {
        ServiceHandle::new(name, svc)
    }
}

impl<S: Clone + 'static> MakeBoxCloneService<S> for LocalExec {
    fn box_clone_service(name: &str, svc: S) -> (handle: ServiceHandle<S>) {
        ServiceHandle::new(name, svc)
    }
}

/// A mode that serves: it wraps services of type `S` and the bodies of
/// their responses, of type `ResBody`.
pub trait HttpServiceExecutor<S, ResBody>: MakeBoxCloneService<S> + ResBodyExecutor<
    ResBody,
> + FutureExecutor<S, ResBody> {

}

impl<S: Clone + Send + 'static, ResBody: Send + 'static> HttpServiceExecutor<S, ResBody> for TokioExec {

}

impl<S: Clone + 'static, ResBody: 'static> HttpServiceExecutor<S, ResBody> for LocalExec {

}

/// A mode of a server, which wraps the services that it is given.
pub trait Executor<S>: Clone {
    /// The handle of `svc` under `name`.
    fn wrap_service(name: &str, svc: S) -> (handle: ServiceHandle<S>)
        ensures
            handle.spec_name() == name@,
            handle.spec_service() == svc,
    ;
}

impl<S: Clone + 'static> Executor<S> for LocalExecutor {
    fn wrap_service(name: &str, svc: S) -> (handle: ServiceHandle<S>) {
        ServiceHandle::new(name, svc)
    }
}

impl<S: Clone + Send + 'static> Executor<S> for MultiThreadExecutor {
    fn wrap_service(name: &str, svc: S) -> (handle: ServiceHandle<S>) {
        ServiceHandle::new(name, svc)
    }
}

} // verus!
