use tonic::status::{decimal, OK, UNIMPLEMENTED};
use tonic::{status_response, unimplemented, MetadataMap, Status, StreamingBody};

#[test]
fn decimal_writes_numbers_without_leading_zeros() {
    assert_eq!(decimal(0), "0");
    assert_eq!(decimal(7), "7");
    assert_eq!(decimal(9), "9");
    assert_eq!(decimal(10), "10");
    assert_eq!(decimal(12), "12");
    assert_eq!(decimal(16), "16");
    assert_eq!(decimal(100), "100");
    assert_eq!(decimal(1234567890), "1234567890");
    assert_eq!(decimal(4294967295), "4294967295");
    for n in [0u32, 1, 9, 10, 11, 99, 100, 101, 999, 1000, 65535, 1_000_000_007] {
        assert_eq!(decimal(n), n.to_string());
    }
}

#[test]
fn status_codes() {
    assert_eq!(OK, 0);
    assert_eq!(UNIMPLEMENTED, 12);
    let status = Status::unimplemented();
    assert_eq!(status.code(), 12);
    assert_eq!(status.message(), "");
    let status = Status::new(5, "no such thing");
    assert_eq!(status.code(), 5);
    assert_eq!(status.message(), "no such thing");
    assert_eq!(status.clone(), status);
}

#[test]
fn status_as_trailers() {
    let trailers = Status::new(0, "").to_trailers();
    assert_eq!(trailers.len(), 1);
    assert_eq!((trailers.key(0), trailers.value(0)), ("grpc-status", "0"));
    let trailers = Status::unimplemented().to_trailers();
    assert_eq!(trailers.len(), 1);
    assert_eq!(trailers.get("grpc-status"), Some("12"));
    assert_eq!(trailers.get("grpc-message"), None);
    let trailers = Status::new(3, "bad argument: ä").to_trailers();
    assert_eq!(trailers.len(), 2);
    assert_eq!((trailers.key(0), trailers.value(0)), ("grpc-status", "3"));
    assert_eq!((trailers.key(1), trailers.value(1)), ("grpc-message", "bad argument: ä"));
}

#[test]
fn metadata_keeps_order_and_finds_the_first_value() {
    let mut map = MetadataMap::new();
    assert_eq!(map.len(), 0);
    assert_eq!(map.get("a"), None);
    map.append("a", "1");
    map.append("b", "2");
    map.append("a", "3");
    map.append("", "");
    assert_eq!(map.len(), 4);
    assert_eq!(map.get("a"), Some("1"));
    assert_eq!(map.get("b"), Some("2"));
    assert_eq!(map.get(""), Some(""));
    assert_eq!(map.get("c"), None);
    assert_eq!(map.get("A"), None);
    assert_eq!((map.key(2), map.value(2)), ("a", "3"));
    assert_eq!((map.key(3), map.value(3)), ("", ""));
    assert_eq!(map.clone(), map);
}

#[test]
fn the_unimplemented_response() {
    let response = unimplemented::<u8>();
    assert_eq!(response.status, 200);
    assert_eq!(response.headers.len(), 1);
    assert_eq!((response.headers.key(0), response.headers.value(0)), ("content-type", "application/grpc"));
    let body: StreamingBody<u8> = response.body;
    assert!(!body.wants_data());
    let other = status_response::<u8>(&Status::new(16, "who are you"));
    assert_eq!(other.status, 200);
    assert_eq!(other.headers.get("content-type"), Some("application/grpc"));
}
