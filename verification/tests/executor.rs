use std::rc::Rc;

use tonic::{
    Boxed, ChunkPoll, ConcurrencyMode, DataEvent, Executor, FutureExecutor, HasBoxBody, LocalExec,
    LocalExecutor, MakeBoxBody, MakeBoxCloneService, Mode, MultiThreadExecutor, Status, TokioExec,
    TrailerEvent, TrailersPoll,
};

#[test]
fn each_executor_stands_for_its_mode() {
    assert_eq!(TokioExec::mode(), ConcurrencyMode::Shared);
    assert_eq!(MultiThreadExecutor::mode(), ConcurrencyMode::Shared);
    assert_eq!(LocalExec::mode(), ConcurrencyMode::Local);
    assert_eq!(LocalExecutor::mode(), ConcurrencyMode::Local);
    assert_ne!(TokioExec::mode(), LocalExec::mode());
}

#[test]
fn the_local_mode_wraps_what_cannot_leave_its_thread() {
    let source = Rc::new(1u8);
    let body = <LocalExec as MakeBoxBody<Rc<u8>>>::make_box_body(source.clone());
    assert!(body.wants_data());
    assert!(!body.is_ended());
    assert!(Rc::ptr_eq(&body.into_source().unwrap(), &source));
    let body = <LocalExec as Boxed<Rc<u8>>>::boxed(source.clone());
    assert!(Rc::ptr_eq(&body.into_source().unwrap(), &source));
    let body = <LocalExecutor as MakeBoxBody<Rc<u8>>>::make_box_body(source.clone());
    assert!(Rc::ptr_eq(&body.into_source().unwrap(), &source));
    let body = <LocalExec as FutureExecutor<(), Rc<u8>>>::box_http_body(source.clone());
    assert!(Rc::ptr_eq(&body.into_source().unwrap(), &source));
    let handle = <LocalExec as MakeBoxCloneService<Rc<u8>>>::box_clone_service("S", source.clone());
    assert_eq!(handle.name(), "S");
    assert!(Rc::ptr_eq(handle.service(), &source));
    let handle = <LocalExecutor as Executor<Rc<u8>>>::wrap_service("T", source.clone());
    assert_eq!(handle.name(), "T");
    assert!(Rc::ptr_eq(&handle.into_service(), &source));
}

#[test]
fn the_shared_mode_wraps_what_can_move() {
    let body = <TokioExec as MakeBoxBody<String>>::make_box_body("source".to_string());
    assert_eq!(body.into_source(), Some("source".to_string()));
    let body = <TokioExec as Boxed<String>>::boxed("source".to_string());
    assert_eq!(body.into_source(), Some("source".to_string()));
    let body = <MultiThreadExecutor as MakeBoxBody<String>>::make_box_body("source".to_string());
    assert_eq!(body.into_source(), Some("source".to_string()));
    let body = <TokioExec as FutureExecutor<(), String>>::box_http_body("source".to_string());
    assert_eq!(body.into_source(), Some("source".to_string()));
    let mut handle = <TokioExec as MakeBoxCloneService<u32>>::box_clone_service("S", 1);
    *handle.service_mut() += 1;
    assert_eq!((handle.name(), *handle.service()), ("S", 2));
    let copy = handle.clone();
    assert_eq!((copy.name(), *copy.service()), ("S", 2));
    let handle = <MultiThreadExecutor as Executor<u32>>::wrap_service("T", 3);
    assert_eq!((handle.name(), *handle.service()), ("T", 3));
}

#[test]
fn a_copying_body_from_either_mode_copies() {
    let mut shared = <TokioExec as MakeBoxBody<u8>>::copy_to_box_body(0);
    let mut local = <LocalExec as MakeBoxBody<u8>>::copy_to_box_body(0);
    for body in [&mut shared, &mut local] {
        match body.poll_next_chunk::<Vec<u8>, String>(DataEvent::Chunk(b"abc".to_vec())) {
            ChunkPoll::Chunk(given) => assert_eq!(given, b"abc".to_vec()),
            other => panic!("a chunk was expected, not {:?}", other),
        }
        assert!(body.wants_data());
    }
}

#[test]
fn empty_bodies_of_both_modes_report_the_status() {
    let status = Status::new(12, "");
    let shared = <TokioExec as HasBoxBody<u8>>::empty_body(&status);
    let local = <LocalExec as HasBoxBody<Rc<u8>>>::empty_body(&status);
    let mut shared = shared;
    let mut local = local;
    assert!(matches!(shared.poll_next_chunk::<Vec<u8>, String>(DataEvent::Pending), ChunkPoll::EndOfData));
    assert!(matches!(local.poll_next_chunk::<Vec<u8>, String>(DataEvent::Pending), ChunkPoll::EndOfData));
    match shared.poll_trailers::<String>(TrailerEvent::Pending) {
        TrailersPoll::Ready(Some(given)) => assert_eq!(given.get("grpc-status"), Some("12")),
        other => panic!("the status was expected, not {:?}", other),
    }
    match local.poll_trailers::<String>(TrailerEvent::Pending) {
        TrailersPoll::Ready(Some(given)) => assert_eq!(given.get("grpc-status"), Some("12")),
        other => panic!("the status was expected, not {:?}", other),
    }
}
