use webgateway::shared::streams::{BufferStream, WrapperBufferStream};

#[test]
fn new_stream_holds_nothing() {
    let mut s = BufferStream::new(WrapperBufferStream::Raw);
    assert_eq!(s.available(), 0);
    assert_eq!(s.pre_read_buf(8), Vec::<u8>::new());
    assert_eq!(s.transport(), WrapperBufferStream::Raw);
    assert!(!s.transport().is_tls());
    let t = BufferStream::new_with_capacity(WrapperBufferStream::TlsServer, 64);
    assert!(t.transport().is_tls());
}

#[test]
fn peeks_give_growing_parts_and_remove_nothing() {
    let mut s = BufferStream::new(WrapperBufferStream::Raw);
    s.fill(b"hello world");
    assert_eq!(s.pre_read_buf(5), b"hello");
    assert_eq!(s.pre_read_buf(3), b" wo");
    assert_eq!(s.available(), 3);
    assert_eq!(s.pre_read_buf(100), b"rld");
    assert_eq!(s.pre_read_buf(100), b"");
    // a read gives the same bytes again
    assert_eq!(s.read(100), b"hello world");
    assert_eq!(s.read(100), b"");
}

#[test]
fn peek_into_a_buffer_gives_the_count() {
    let mut s = BufferStream::new(WrapperBufferStream::Raw);
    s.fill(b"abc");
    let mut buf = vec![0u8; 2];
    assert_eq!(s.pre_read(&mut buf), 2);
    assert_eq!(buf, b"ab");
    let mut buf = vec![b'-'; 4];
    assert_eq!(s.pre_read(&mut buf), 1);
    assert_eq!(buf, b"c---");
    assert_eq!(s.pre_read(&mut buf), 0);
}

#[test]
fn rewound_stream_is_peeked_from_its_start() {
    let mut s = BufferStream::new(WrapperBufferStream::Raw);
    s.fill(b"GET / HTTP/1.1");
    assert_eq!(s.pre_read_buf(3), b"GET");
    let mut s = s.into_inner();
    assert_eq!(s.pre_read_buf(5), b"GET /");
    assert_eq!(s.read(3), b"GET");
}

#[test]
fn bytes_that_arrive_later_are_peeked_later() {
    let mut s = BufferStream::new(WrapperBufferStream::Raw);
    s.fill(b"ab");
    assert_eq!(s.pre_read_buf(4), b"ab");
    s.fill(b"cd");
    assert_eq!(s.pre_read_buf(4), b"cd");
    assert_eq!(s.read(3), b"abc");
    assert_eq!(s.available(), 0);
    assert_eq!(s.read(3), b"d");
}

#[test]
fn consumed_bytes_are_gone() {
    let mut s = BufferStream::new(WrapperBufferStream::Raw);
    s.fill(b"PROXY UNKNOWN\r\nrest");
    assert_eq!(s.pre_read_buf(15).len(), 15);
    s.consume(15);
    assert_eq!(s.available(), 4);
    assert_eq!(s.read(10), b"rest");
}
