//! The request-dispatch and body-streaming core of an RPC server: a router
//! keyed by service path, a streaming body that hands out data, then
//! trailers, then ends, and the two concurrency modes both are written over.

pub mod body;
pub mod chunk;
pub mod executor;
pub mod index;
pub mod metadata;
pub mod pattern;
pub mod router;
pub mod service;
pub mod status;

pub use body::{
    empty_body, local_empty_body, BoxBody, ChunkPoll, DataEvent, LocalBoxBody, SizeHint,
    StreamingBody, TrailerEvent, TrailersPoll, UnsendBoxBody,
};
pub use chunk::Chunk;
pub use executor::{
    Boxed, ConcurrencyMode, Executor, FutureExecutor, HasBoxBody, HttpServiceExecutor, LocalExec,
    LocalExecutor, MakeBoxBody, MakeBoxCloneService, MaybeSend, Mode, MultiThreadExecutor,
    ResBodyExecutor, TokioExec,
};
pub use metadata::MetadataMap;
pub use router::axum::{AxumRouter, Poll, RoutesFuture};
pub use router::simple::SimpleRouter;
pub use router::{RegistrationError, Routes, RoutesBuilder};
pub use service::{
    status_response, unimplemented, BoxCloneService, CallOutcome, Response, ServiceHandle,
};
pub use status::Status;
