use bytes::BytesMut;
use vnt::buffer::BUF_LEN;
use vnt::drain::{
    readable_begin, readable_handle, room_of, writable_begin, writable_handle, Drain, Io,
};
use vnt::shutdown::Shutdown;

fn buffer_of(bytes: &[u8]) -> BytesMut {
    BytesMut::from(bytes)
}

#[test]
fn buf_len_is_forty_kib() {
    assert_eq!(BUF_LEN, 40960);
}

#[test]
fn read_round_stops_at_capacity() {
    assert_eq!(readable_begin(&buffer_of(&[])), Drain::Read);
    assert_eq!(readable_begin(&buffer_of(&vec![0u8; BUF_LEN - 1])), Drain::Read);
    assert_eq!(readable_begin(&buffer_of(&vec![0u8; BUF_LEN])), Drain::Finished);
}

#[test]
fn room_is_what_is_left_of_the_capacity() {
    assert_eq!(room_of(&buffer_of(&[])), BUF_LEN);
    assert_eq!(room_of(&buffer_of(&[1, 2, 3])), BUF_LEN - 3);
    assert_eq!(room_of(&buffer_of(&vec![0u8; BUF_LEN])), 0);
}

#[test]
fn end_of_stream_breaks_the_read_drain() {
    let mut mid = buffer_of(b"kept");
    let mut inline = BytesMut::new();
    let mut state2 = None;
    let next = readable_handle(&mut mid, &mut inline, &mut state2, Io::Data(Vec::new()));
    assert_eq!(next, Drain::Broken);
    assert_eq!(&mid[..], b"kept");
    assert!(inline.is_empty());
    assert_eq!(state2, None);
}

#[test]
fn read_error_breaks_the_read_drain() {
    let mut mid = BytesMut::new();
    let mut inline = BytesMut::new();
    let mut state2 = Some(Shutdown::Read);
    let next = readable_handle(&mut mid, &mut inline, &mut state2, Io::Failed);
    assert_eq!(next, Drain::Broken);
    assert_eq!(state2, Some(Shutdown::Read));
}

#[test]
fn read_that_would_block_ends_the_drain() {
    let mut mid = buffer_of(b"ab");
    let mut inline = BytesMut::new();
    let mut state2 = None;
    let next = readable_handle(&mut mid, &mut inline, &mut state2, Io::WouldBlock);
    assert_eq!(next, Drain::Finished);
    assert_eq!(&mid[..], b"ab");
}

#[test]
fn bytes_for_an_empty_buffer_go_on_offer() {
    let mut mid = BytesMut::new();
    let mut inline = BytesMut::new();
    let mut state2 = None;
    let next = readable_handle(&mut mid, &mut inline, &mut state2, Io::Data(b"hello".to_vec()));
    assert_eq!(next, Drain::Write);
    assert!(mid.is_empty());
    assert_eq!(&inline[..], b"hello");
}

#[test]
fn bytes_for_a_buffer_in_use_are_appended() {
    let mut mid = buffer_of(b"old");
    let mut inline = BytesMut::new();
    let mut state2 = None;
    let next = readable_handle(&mut mid, &mut inline, &mut state2, Io::Data(b"new".to_vec()));
    assert_eq!(next, Drain::Read);
    assert_eq!(&mid[..], b"oldnew");
    assert!(inline.is_empty());
}

#[test]
fn appending_up_to_capacity_ends_the_drain() {
    let mut mid = buffer_of(&vec![7u8; BUF_LEN - 2]);
    let mut inline = BytesMut::new();
    let mut state2 = None;
    let next = readable_handle(&mut mid, &mut inline, &mut state2, Io::Data(vec![8, 9]));
    assert_eq!(next, Drain::Finished);
    assert_eq!(mid.len(), BUF_LEN);
    assert_eq!(&mid[BUF_LEN - 2..], &[8, 9]);
}

#[test]
fn partial_inline_write_keeps_the_rest_on_offer() {
    let mut mid = BytesMut::new();
    let mut inline = buffer_of(b"hello");
    let mut state2 = None;
    let next = readable_handle(&mut mid, &mut inline, &mut state2, Io::Wrote(2));
    assert_eq!(next, Drain::Write);
    assert_eq!(&inline[..], b"llo");
    assert!(mid.is_empty());
}

#[test]
fn complete_inline_write_starts_the_next_round() {
    let mut mid = BytesMut::new();
    let mut inline = buffer_of(b"hello");
    let mut state2 = None;
    let next = readable_handle(&mut mid, &mut inline, &mut state2, Io::Wrote(5));
    assert_eq!(next, Drain::Read);
    assert!(inline.is_empty());
    assert!(mid.is_empty());
    assert_eq!(state2, None);
}

#[test]
fn inline_write_that_would_block_buffers_the_rest() {
    let mut mid = BytesMut::new();
    let mut inline = buffer_of(b"llo");
    let mut state2 = None;
    let next = readable_handle(&mut mid, &mut inline, &mut state2, Io::WouldBlock);
    assert_eq!(next, Drain::Read);
    assert_eq!(&mid[..], b"llo");
    assert!(inline.is_empty());
}

#[test]
fn inline_write_of_nothing_drops_the_bytes_and_retires_writing() {
    let mut mid = BytesMut::new();
    let mut inline = buffer_of(b"hello");
    let mut state2 = None;
    let next = readable_handle(&mut mid, &mut inline, &mut state2, Io::Wrote(0));
    assert_eq!(next, Drain::Broken);
    assert!(mid.is_empty());
    assert!(inline.is_empty());
    assert_eq!(state2, Some(Shutdown::Write));
}

#[test]
fn failed_inline_write_drops_the_bytes_and_retires_writing() {
    let mut mid = BytesMut::new();
    let mut inline = buffer_of(b"hello");
    let mut state2 = Some(Shutdown::Read);
    let next = readable_handle(&mut mid, &mut inline, &mut state2, Io::Failed);
    assert_eq!(next, Drain::Broken);
    assert!(mid.is_empty());
    assert!(inline.is_empty());
    assert_eq!(state2, Some(Shutdown::Both));
}

#[test]
fn write_round_goes_on_while_bytes_are_held() {
    assert_eq!(writable_begin(&buffer_of(&[])), Drain::Finished);
    assert_eq!(writable_begin(&buffer_of(&[1])), Drain::Write);
}

#[test]
fn write_drain_advances_by_what_was_written() {
    let mut mid = buffer_of(b"abcdef");
    assert_eq!(writable_handle(&mut mid, Io::Wrote(4)), Drain::Write);
    assert_eq!(&mid[..], b"ef");
    assert_eq!(writable_handle(&mut mid, Io::Wrote(2)), Drain::Finished);
    assert!(mid.is_empty());
}

#[test]
fn write_drain_stops_when_it_would_block() {
    let mut mid = buffer_of(b"abcdef");
    assert_eq!(writable_handle(&mut mid, Io::WouldBlock), Drain::Finished);
    assert_eq!(&mid[..], b"abcdef");
}

#[test]
fn write_drain_breaks_on_error_and_keeps_the_buffer() {
    let mut mid = buffer_of(b"abcdef");
    assert_eq!(writable_handle(&mut mid, Io::Failed), Drain::Broken);
    assert_eq!(&mid[..], b"abcdef");
}

#[test]
fn bytes_leave_a_drain_in_the_order_they_came() {
    let mut mid = BytesMut::new();
    let mut inline = BytesMut::new();
    let mut state2 = None;
    let mut delivered = Vec::new();
    // The first read goes past the buffer; the sink takes three bytes.
    assert_eq!(
        readable_handle(&mut mid, &mut inline, &mut state2, Io::Data(b"first".to_vec())),
        Drain::Write
    );
    delivered.extend_from_slice(&inline[..3]);
    assert_eq!(readable_handle(&mut mid, &mut inline, &mut state2, Io::Wrote(3)), Drain::Write);
    // Then the sink blocks: the rest is buffered, and the next read joins it.
    assert_eq!(readable_handle(&mut mid, &mut inline, &mut state2, Io::WouldBlock), Drain::Read);
    assert_eq!(
        readable_handle(&mut mid, &mut inline, &mut state2, Io::Data(b"second".to_vec())),
        Drain::Read
    );
    // The write-drain delivers what is buffered, front first.
    while writable_begin(&mid) == Drain::Write {
        let n = mid.len().min(4);
        delivered.extend_from_slice(&mid[..n]);
        writable_handle(&mut mid, Io::Wrote(n));
    }
    assert_eq!(delivered, b"firstsecond".to_vec());
}
