use tercen_http::reader::{EnsureStep, ReceiverReader};
use tercen_http::writer::{SenderWriter, TsonBodyWriter, FLUSH_THRESHOLD};

#[test]
fn written_scalars_are_read_back() {
    let mut w = SenderWriter::new(());
    w.add_u8(0xab);
    w.add_i8(-5);
    w.add_u16(0xbeef);
    w.add_i16(-12345);
    w.add_u32(0xdead_beef);
    w.add_i32(-7);
    w.add_u64(0x0102_0304_0506_0708);
    w.add_i64(i64::MIN);
    w.put_slice(&[1, 2, 3]);

    let mut r = ReceiverReader::new();
    let (a, b) = w.buf.split_at(5);
    r.accept_chunk(a);
    r.accept_chunk(b);
    assert_eq!(r.remaining(), 1 + 1 + 2 + 2 + 4 + 4 + 8 + 8 + 3);
    assert_eq!(r.get_u8(), 0xab);
    assert_eq!(r.get_i8(), -5);
    assert_eq!(r.get_u16_le(), 0xbeef);
    assert_eq!(r.get_i16_le(), -12345);
    assert_eq!(r.get_u32_le(), 0xdead_beef);
    assert_eq!(r.get_i32_le(), -7);
    assert_eq!(r.get_u64_le(), 0x0102_0304_0506_0708);
    assert_eq!(r.get_i64_le(), i64::MIN);
    assert_eq!(r.get_u8(), 1);
    assert_eq!(r.remaining(), 2);
}

#[test]
fn writer_uses_little_endian() {
    let mut w = SenderWriter::new(());
    w.add_u32(0x0102_0304);
    w.add_u16(0x0506);
    w.add_i16(-2);
    assert_eq!(w.buf, vec![4, 3, 2, 1, 6, 5, 0xfe, 0xff]);
}

#[test]
fn reader_decodes_little_endian() {
    let mut r = ReceiverReader::new();
    r.accept_chunk(&[0x78, 0x56, 0x34, 0x12, 0xff, 0xff, 0xff, 0xff]);
    assert_eq!(r.get_u32_le(), 0x1234_5678);
    assert_eq!(r.get_i32_le(), -1);
}

#[test]
fn writer_asks_for_a_flush_past_the_threshold() {
    let mut w = SenderWriter::new(7u8);
    let chunk = vec![0u8; FLUSH_THRESHOLD];
    assert!(!w.put_slice(&chunk));
    assert!(!w.needs_flush());
    assert!(w.add_u8(1));
    assert!(w.has_pending());
    w.mark_flushed();
    assert!(w.buf.is_empty());
    assert!(!w.has_pending());
    assert_eq!(w.sender, 7u8);
    assert!(!w.add_u64(3));
}

#[test]
fn ensure_asks_for_chunks_until_enough_or_end() {
    let mut r = ReceiverReader::new();
    assert_eq!(r.ensure_step(0), EnsureStep::Ready);
    assert_eq!(r.ensure_step(2), EnsureStep::Fetch);
    r.accept_chunk(&[1]);
    assert_eq!(r.ensure_step(2), EnsureStep::Fetch);
    r.accept_chunk(&[2]);
    assert_eq!(r.ensure_step(2), EnsureStep::Ready);
    assert_eq!(r.get_u16_le(), 0x0201);
    assert_eq!(r.ensure_step(1), EnsureStep::Fetch);
    r.accept_chunk(&[]);
    assert!(r.is_done());
    assert_eq!(r.ensure_step(1), EnsureStep::Eof);
    assert_eq!(r.ensure_step(0), EnsureStep::Ready);
}

#[test]
fn chunk_after_unread_bytes_is_appended() {
    let mut r = ReceiverReader::new();
    r.accept_chunk(&[1, 2, 3]);
    assert_eq!(r.get_u8(), 1);
    r.accept_chunk(&[4]);
    let mut out = Vec::new();
    r.drain_into(&mut out);
    // the whole buffer is handed over, the consumed byte included
    assert_eq!(out, vec![1, 2, 3, 4]);
    assert_eq!(r.remaining(), 0);
}

#[test]
fn chunk_after_everything_read_replaces_the_buffer() {
    let mut r = ReceiverReader::new();
    r.accept_chunk(&[1, 2]);
    assert_eq!(r.get_u16_le(), 0x0201);
    r.accept_chunk(&[9, 8]);
    let mut out = vec![7];
    r.drain_into(&mut out);
    assert_eq!(out, vec![7, 9, 8]);
}

#[test]
fn read_all_collects_every_chunk() {
    let mut r = ReceiverReader::new();
    let mut out = Vec::new();
    r.drain_into(&mut out);
    for chunk in [&b"ab"[..], &b"cd"[..], &b""[..]] {
        r.accept_chunk(chunk);
        if r.is_done() {
            break;
        }
        r.drain_into(&mut out);
    }
    assert_eq!(out, b"abcd".to_vec());
}

#[test]
fn tson_body_keeps_its_value() {
    let b = TsonBodyWriter::new(vec![1, 2, 3]);
    assert_eq!(b.value(), &vec![1, 2, 3]);
}

#[test]
fn limits_of_the_buffer() {
    let mut r = ReceiverReader::new();
    assert!(r.can_accept(10));
    assert!(r.can_drain());
    r.accept_chunk(&[1, 2, 3]);
    assert!(r.can_accept(usize::MAX - 3));
    assert!(!r.can_accept(usize::MAX - 2));
    assert!(r.can_drain());
}

#[test]
fn waiting_for_bytes_keeps_them_in_order() {
    // unread bytes, then every chunk taken in while waiting, in order
    let mut r = ReceiverReader::new();
    r.accept_chunk(&[1, 2]);
    assert_eq!(r.get_u8(), 1);
    while r.ensure_step(4) == EnsureStep::Fetch {
        r.accept_chunk(&[3]);
        r.accept_chunk(&[4, 5]);
    }
    assert_eq!(r.ensure_step(4), EnsureStep::Ready);
    assert_eq!(r.get_u32_le(), u32::from_le_bytes([2, 3, 4, 5]));
    assert_eq!(r.remaining(), 0);
}
