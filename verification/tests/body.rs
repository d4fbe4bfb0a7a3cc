use bytes::Bytes;
use tonic::{
    empty_body, local_empty_body, BoxBody, CallOutcome, ChunkPoll, DataEvent, LocalBoxBody,
    MetadataMap, Response, SizeHint, Status, StreamingBody, TrailerEvent, TrailersPoll,
    UnsendBoxBody,
};

fn trailers_of(pairs: &[(&str, &str)]) -> MetadataMap {
    let mut map = MetadataMap::new();
    for (key, value) in pairs {
        map.append(key, value);
    }
    map
}

fn chunk_of(answer: ChunkPoll<Vec<u8>, String>) -> Vec<u8> {
    match answer {
        ChunkPoll::Chunk(chunk) => chunk,
        other => panic!("a chunk was expected, not {:?}", other),
    }
}

#[test]
fn round_trip_gives_the_chunks_then_the_trailers() {
    let chunks: Vec<Vec<u8>> = vec![b"one".to_vec(), Vec::new(), b"three".to_vec(), vec![0, 255, 7]];
    let trailers = trailers_of(&[("grpc-status", "0"), ("x-bin", "AAEC"), ("grpc-status", "1")]);
    let mut body: StreamingBody<&str> = StreamingBody::new("source");
    let mut got = Vec::new();
    for chunk in &chunks {
        assert!(!body.is_ended());
        assert!(body.wants_data());
        assert!(matches!(body.poll_next_chunk::<Vec<u8>, String>(DataEvent::Pending), ChunkPoll::Pending));
        assert!(!body.is_ended());
        got.push(chunk_of(body.poll_next_chunk(DataEvent::Chunk(chunk.clone()))));
    }
    assert_eq!(got, chunks);
    assert!(!body.is_ended());
    assert!(matches!(body.poll_next_chunk::<Vec<u8>, String>(DataEvent::End), ChunkPoll::EndOfData));
    assert!(body.is_ended());
    assert!(!body.wants_data());
    assert!(body.wants_trailers());
    assert!(matches!(body.poll_trailers::<String>(TrailerEvent::Pending), TrailersPoll::Pending));
    assert!(body.wants_trailers());
    match body.poll_trailers::<String>(TrailerEvent::Ready(Some(trailers.clone()))) {
        TrailersPoll::Ready(Some(given)) => assert_eq!(given, trailers),
        other => panic!("the trailers were expected, not {:?}", other),
    }
    assert!(body.is_ended());
    assert!(!body.wants_trailers());
    for _ in 0..3 {
        assert!(matches!(
            body.poll_next_chunk::<Vec<u8>, String>(DataEvent::Chunk(b"late".to_vec())),
            ChunkPoll::EndOfData
        ));
        assert!(matches!(
            body.poll_trailers::<String>(TrailerEvent::Ready(Some(trailers.clone()))),
            TrailersPoll::Ready(None)
        ));
        assert!(body.is_ended());
    }
    assert_eq!(body.into_source(), Some("source"));
}

#[test]
fn a_source_without_trailers_gives_none() {
    let mut body: StreamingBody<u8> = StreamingBody::new(0);
    assert!(matches!(body.poll_next_chunk::<Vec<u8>, String>(DataEvent::End), ChunkPoll::EndOfData));
    assert!(matches!(body.poll_trailers::<String>(TrailerEvent::Ready(None)), TrailersPoll::Ready(None)));
    assert!(!body.wants_trailers());
    assert!(matches!(
        body.poll_trailers::<String>(TrailerEvent::Ready(Some(trailers_of(&[("a", "b")])))),
        TrailersPoll::Ready(None)
    ));
}

#[test]
fn trailers_are_not_given_before_the_data_has_ended() {
    let mut body: StreamingBody<u8> = StreamingBody::new(0);
    assert!(!body.wants_trailers());
    assert!(matches!(body.poll_trailers::<String>(TrailerEvent::Pending), TrailersPoll::Pending));
    assert!(matches!(body.poll_trailers::<String>(TrailerEvent::Ready(None)), TrailersPoll::Pending));
    assert!(matches!(
        body.poll_trailers::<String>(TrailerEvent::Failed("early".to_string())),
        TrailersPoll::Pending
    ));
    assert_eq!(chunk_of(body.poll_next_chunk(DataEvent::Chunk(b"a".to_vec()))), b"a".to_vec());
    assert!(matches!(body.poll_trailers::<String>(TrailerEvent::Pending), TrailersPoll::Pending));
    assert!(!body.is_ended());
    assert!(matches!(body.poll_next_chunk::<Vec<u8>, String>(DataEvent::End), ChunkPoll::EndOfData));
    assert!(matches!(body.poll_trailers::<String>(TrailerEvent::Ready(None)), TrailersPoll::Ready(None)));
}

#[test]
fn trailers_that_come_early_are_kept_until_the_end() {
    let early = trailers_of(&[("grpc-status", "0")]);
    let later = trailers_of(&[("grpc-status", "2")]);
    let mut body: StreamingBody<u8> = StreamingBody::new(0);
    assert!(matches!(
        body.poll_trailers::<String>(TrailerEvent::Ready(Some(early.clone()))),
        TrailersPoll::Pending
    ));
    assert!(matches!(
        body.poll_trailers::<String>(TrailerEvent::Ready(Some(later.clone()))),
        TrailersPoll::Pending
    ));
    assert_eq!(chunk_of(body.poll_next_chunk(DataEvent::Chunk(b"data".to_vec()))), b"data".to_vec());
    assert!(matches!(body.poll_next_chunk::<Vec<u8>, String>(DataEvent::End), ChunkPoll::EndOfData));
    assert!(!body.wants_trailers());
    match body.poll_trailers::<String>(TrailerEvent::Ready(Some(later))) {
        TrailersPoll::Ready(Some(given)) => assert_eq!(given, early),
        other => panic!("the early trailers were expected, not {:?}", other),
    }
    assert!(matches!(body.poll_trailers::<String>(TrailerEvent::Pending), TrailersPoll::Ready(None)));
}

#[test]
fn a_failure_of_the_source_is_handed_on() {
    let mut body: StreamingBody<u8> = StreamingBody::new(0);
    assert_eq!(chunk_of(body.poll_next_chunk(DataEvent::Chunk(b"a".to_vec()))), b"a".to_vec());
    match body.poll_next_chunk::<Vec<u8>, String>(DataEvent::Failed("broken".to_string())) {
        ChunkPoll::Error(error) => assert_eq!(error, "broken"),
        other => panic!("the failure was expected, not {:?}", other),
    }
    assert!(!body.is_ended());
    assert!(matches!(body.poll_trailers::<String>(TrailerEvent::Pending), TrailersPoll::Pending));
    assert!(matches!(body.poll_next_chunk::<Vec<u8>, String>(DataEvent::End), ChunkPoll::EndOfData));
    match body.poll_trailers::<String>(TrailerEvent::Failed("no trailers".to_string())) {
        TrailersPoll::Error(error) => assert_eq!(error, "no trailers"),
        other => panic!("the failure was expected, not {:?}", other),
    }
    assert!(matches!(body.poll_trailers::<String>(TrailerEvent::Pending), TrailersPoll::Ready(None)));
}

#[test]
fn an_empty_body_ends_at_once_and_reports_its_status() {
    let status = Status::new(12, "");
    let bodies: Vec<StreamingBody<u8>> = vec![
        StreamingBody::empty(&status),
        empty_body::<u8>(&status),
        local_empty_body::<u8>(&status),
    ];
    for mut body in bodies {
        assert!(!body.is_ended());
        assert!(!body.wants_data());
        assert!(body.source_mut().is_none());
        assert!(matches!(body.poll_trailers::<String>(TrailerEvent::Pending), TrailersPoll::Pending));
        assert!(matches!(
            body.poll_next_chunk::<Vec<u8>, String>(DataEvent::Chunk(b"never".to_vec())),
            ChunkPoll::EndOfData
        ));
        assert!(body.is_ended());
        assert!(!body.wants_trailers());
        match body.poll_trailers::<String>(TrailerEvent::Ready(Some(trailers_of(&[("other", "x")])))) {
            TrailersPoll::Ready(Some(given)) => assert_eq!(given, trailers_of(&[("grpc-status", "12")])),
            other => panic!("the status was expected, not {:?}", other),
        }
        assert!(matches!(body.poll_trailers::<String>(TrailerEvent::Pending), TrailersPoll::Ready(None)));
        assert_eq!(body.into_source(), None);
    }
}

#[test]
fn the_default_body_has_neither_data_nor_trailers() {
    let mut body: UnsendBoxBody<u8> = Default::default();
    assert!(!body.is_ended());
    assert!(!body.wants_data());
    assert!(matches!(body.poll_trailers::<String>(TrailerEvent::Pending), TrailersPoll::Pending));
    assert!(matches!(body.poll_next_chunk::<Vec<u8>, String>(DataEvent::Pending), ChunkPoll::EndOfData));
    assert!(body.is_ended());
    assert!(!body.wants_trailers());
    assert!(matches!(
        body.poll_trailers::<String>(TrailerEvent::Ready(Some(trailers_of(&[("a", "b")])))),
        TrailersPoll::Ready(None)
    ));
}

#[test]
fn a_copying_body_gives_the_same_bytes() {
    let mut plain: BoxBody<u8> = StreamingBody::new(0);
    let mut copying: LocalBoxBody<u8> = StreamingBody::copying(0);
    let whole = Bytes::from_static(b"0123456789");
    for (from, to) in [(0usize, 10usize), (2, 5), (4, 4), (9, 10)] {
        let chunk = whole.slice(from..to);
        match plain.poll_next_chunk::<Bytes, String>(DataEvent::Chunk(chunk.clone())) {
            ChunkPoll::Chunk(given) => assert_eq!(&given[..], &whole[from..to]),
            other => panic!("a chunk was expected, not {:?}", other),
        }
        match copying.poll_next_chunk::<Bytes, String>(DataEvent::Chunk(chunk.clone())) {
            ChunkPoll::Chunk(given) => {
                assert_eq!(&given[..], &whole[from..to]);
                assert_eq!(given.len(), to - from);
            }
            other => panic!("a chunk was expected, not {:?}", other),
        }
        match copying.poll_next_chunk::<Vec<u8>, String>(DataEvent::Chunk(chunk.to_vec())) {
            ChunkPoll::Chunk(given) => assert_eq!(&given[..], &whole[from..to]),
            other => panic!("a chunk was expected, not {:?}", other),
        }
    }
    assert!(matches!(copying.poll_next_chunk::<Bytes, String>(DataEvent::End), ChunkPoll::EndOfData));
    assert!(copying.is_ended());
}

#[test]
fn the_source_can_be_reached_and_changed() {
    let mut body: StreamingBody<Vec<u8>> = StreamingBody::new(vec![1, 2, 3]);
    match body.source_mut() {
        Some(source) => {
            assert_eq!(source.pop(), Some(3));
        }
        None => panic!("the body has a source"),
    }
    assert!(!body.is_ended());
    assert_eq!(body.into_source(), Some(vec![1, 2]));
}

#[test]
fn size_hints() {
    let unknown = SizeHint::new();
    assert_eq!((unknown.lower(), unknown.upper(), unknown.exact()), (0, None, None));
    let exact = SizeHint::with_exact(5);
    assert_eq!((exact.lower(), exact.upper(), exact.exact()), (5, Some(5), Some(5)));
    let between = SizeHint::bounded(2, 9);
    assert_eq!((between.lower(), between.upper(), between.exact()), (2, Some(9), None));
    let open = SizeHint::at_least(3);
    assert_eq!((open.lower(), open.upper(), open.exact()), (3, None, None));
    assert_eq!(SizeHint::at_least(0), SizeHint::new());
    let also_exact = SizeHint::bounded(4, 4);
    assert_eq!(also_exact.exact(), Some(4));
    assert_eq!(also_exact, SizeHint::with_exact(4));

    let mut body: StreamingBody<u8> = StreamingBody::new(0);
    assert_eq!(body.size_hint(between), between);
    assert_eq!(body.size_hint(unknown), unknown);
    assert!(matches!(body.poll_next_chunk::<Vec<u8>, String>(DataEvent::End), ChunkPoll::EndOfData));
    assert_eq!(body.size_hint(between), SizeHint::with_exact(0));
    let empty: StreamingBody<u8> = StreamingBody::empty(&Status::new(0, ""));
    assert_eq!(empty.size_hint(between), SizeHint::with_exact(0));
}

#[test]
fn a_failed_call_is_answered_with_its_status() {
    let outcome: CallOutcome<u8> = CallOutcome::Failure(Status::new(13, "handler broke"));
    let mut response = outcome.into_response();
    assert_eq!(response.status, 200);
    assert_eq!(response.headers, trailers_of(&[("content-type", "application/grpc")]));
    assert!(matches!(response.body.poll_next_chunk::<Vec<u8>, String>(DataEvent::Pending), ChunkPoll::EndOfData));
    match response.body.poll_trailers::<String>(TrailerEvent::Pending) {
        TrailersPoll::Ready(Some(given)) => {
            assert_eq!(given, trailers_of(&[("grpc-status", "13"), ("grpc-message", "handler broke")]));
        }
        other => panic!("the status was expected, not {:?}", other),
    }
}

#[test]
fn a_successful_call_keeps_its_response() {
    let headers = trailers_of(&[("content-type", "application/grpc"), ("x-a", "1")]);
    let outcome = CallOutcome::Success(Response { status: 200, headers: headers.clone(), body: "the body" });
    let response = outcome.into_response();
    assert_eq!(response.status, 200);
    assert_eq!(response.headers, headers);
    assert!(response.body.wants_data());
    assert!(!response.body.is_ended());
    assert_eq!(response.body.into_source(), Some("the body"));
}
