use bytes::Buf;
use small_bytes::{SmallBytes, CHUNK_GROWTH};

#[test]
fn test_put() {
    let mut buf = SmallBytes::<4>::new();
    buf.put(&b"hello world"[..]);
    buf.put_u16(1234);
    assert_eq!(buf.as_ref(), &b"hello world\x04\xD2"[..]);
}

#[test]
fn test_remaining_mut() {
    let mut buf = SmallBytes::<4>::new();
    let original_remaining = buf.remaining_mut();
    buf.put(&b"hello"[..]);
    assert_eq!(original_remaining - 5, buf.remaining_mut());
}

#[test]
fn test_advance_mut() {
    let mut buf = SmallBytes::<5>::new();

    // Write some data
    buf.chunk_mut()[0..2].copy_from_slice(b"he");
    buf.advance_mut(2);

    // write more bytes
    buf.chunk_mut()[0..3].copy_from_slice(b"llo");
    buf.advance_mut(3);

    assert_eq!(5, buf.len());
    assert_eq!(buf.as_ref(), b"hello");
}

#[test]
fn test_chunk_mut() {
    let mut buf = SmallBytes::<5>::new();
    buf.chunk_mut()[0] = b'h';
    buf.chunk_mut()[1] = b'e';

    buf.advance_mut(2);

    buf.chunk_mut()[0] = b'l';
    buf.chunk_mut()[1] = b'l';
    buf.chunk_mut()[2] = b'o';

    buf.advance_mut(3);

    assert_eq!(5, buf.len());
    assert_eq!(buf.as_ref(), b"hello");
}

#[test]
fn test_put_slice_larger_than_inline_capacity() {
    let mut buf = SmallBytes::<4>::new();
    buf.put_u8(0);
    buf.put_slice(&[0; 8][..]);
    assert_eq!(buf.as_ref(), &[0; 9][..]);
}

#[test]
fn new_buffer_is_empty_with_inline_capacity() {
    let buf = SmallBytes::<12>::new();
    assert!(buf.is_empty());
    assert_eq!(buf.len(), 0);
    assert_eq!(buf.capacity(), 12);
    assert!(!buf.spilled());
    assert_eq!(buf.as_ref(), &b""[..]);
}

#[test]
fn chunk_mut_grows_a_full_buffer() {
    let mut buf = SmallBytes::<4>::new();
    buf.put_slice(b"abcd");
    assert_eq!(buf.capacity(), buf.len());
    let n = buf.chunk_mut().len();
    // Reserving CHUNK_GROWTH past 4 bytes rounds up to a power of two.
    assert_eq!(CHUNK_GROWTH, 64);
    assert_eq!(buf.capacity(), 128);
    assert_eq!(n, 124);
    assert_eq!(buf.as_ref(), b"abcd");
}

#[test]
fn chunk_mut_on_empty_zero_capacity_buffer() {
    let mut buf = SmallBytes::<0>::new();
    assert_eq!(buf.capacity(), 0);
    assert!(!buf.chunk_mut().is_empty());
}

#[test]
fn chunk_mut_exposes_the_spare_region_without_growth() {
    let mut buf = SmallBytes::<8>::new();
    buf.put_slice(b"abc");
    assert_eq!(buf.chunk_mut().len(), 5);
    assert_eq!(buf.capacity(), 8);
}

#[test]
fn advance_mut_keeps_prefix_and_adds_count() {
    let mut buf = SmallBytes::<4>::new();
    buf.put_slice(b"xy");
    buf.chunk_mut()[0..2].copy_from_slice(b"zw");
    buf.advance_mut(2);
    assert_eq!(buf.len(), 4);
    assert_eq!(buf.as_ref(), b"xyzw");
}

#[test]
fn reserve_rounds_up_to_a_power_of_two() {
    let mut buf = SmallBytes::<4>::new();
    buf.reserve(4);
    assert_eq!(buf.capacity(), 4);
    assert!(!buf.spilled());
    buf.reserve(5);
    assert_eq!(buf.capacity(), 8);
    buf.reserve(100);
    assert_eq!(buf.capacity(), 128);
    assert!(buf.spilled());
    assert!(buf.is_empty());
}

#[test]
fn capacity_never_drops_below_inline_or_length() {
    let mut buf = SmallBytes::<6>::new();
    buf.put_slice(b"0123456789");
    assert!(buf.len() <= buf.capacity());
    buf.resize(2, 0);
    assert_eq!(buf.len(), 2);
    assert!(buf.capacity() >= 10);
    assert!(buf.capacity() >= 6);
    assert!(buf.spilled());
}

#[test]
fn truncate_then_append_shows_only_new_bytes() {
    let mut buf = SmallBytes::<4>::new();
    buf.put_slice(b"hello world");
    buf.resize(5, 0);
    assert_eq!(buf.as_ref(), b"hello");
    buf.put_slice(b"!");
    assert_eq!(buf.as_ref(), b"hello!");
    buf.advance_mut(0);
    assert_eq!(buf.as_ref(), b"hello!");
}

#[test]
fn resize_up_fills_with_value() {
    let mut buf = SmallBytes::<2>::new();
    buf.put_slice(b"ab");
    buf.resize(5, b'z');
    assert_eq!(buf.as_ref(), b"abzzz");
}

#[test]
fn put_bytes_appends_copies() {
    let mut buf = SmallBytes::<3>::new();
    buf.put_u8(1);
    buf.put_bytes(7, 4);
    assert_eq!(buf.as_ref(), &[1, 7, 7, 7, 7][..]);
    buf.put_bytes(9, 0);
    assert_eq!(buf.as_ref(), &[1, 7, 7, 7, 7][..]);
}

#[test]
fn put_u16_is_big_endian() {
    let mut buf = SmallBytes::<2>::new();
    buf.put_u16(0x0102);
    buf.put_u16(0xFFFF);
    buf.put_u16(0);
    assert_eq!(buf.as_ref(), &[1, 2, 0xFF, 0xFF, 0, 0][..]);
}

#[test]
fn spilling_does_not_change_content() {
    let mut small = SmallBytes::<2>::new();
    let mut large = SmallBytes::<64>::new();
    small.put(&b"abc"[..]);
    small.put_bytes(b'-', 2);
    small.put_u16(1234);
    small.resize(6, 0);
    small.put_slice(b"xyz");
    large.put(&b"abc"[..]);
    large.put_bytes(b'-', 2);
    large.put_u16(1234);
    large.resize(6, 0);
    large.put_slice(b"xyz");
    assert!(small.spilled());
    assert!(!large.spilled());
    assert_eq!(small.as_ref(), large.as_ref());
    assert_eq!(small.as_ref(), &b"abc--\x04xyz"[..]);
}

#[test]
fn remaining_drops_by_bytes_written() {
    let mut buf = SmallBytes::<1>::new();
    let before = buf.remaining_mut();
    buf.put_bytes(0, 10);
    assert_eq!(buf.remaining_mut(), before - 10);
    buf.put_u16(5);
    assert_eq!(buf.remaining_mut(), before - 12);
    assert_eq!(before, isize::MAX as usize);
}

#[test]
fn equality_looks_at_content_only() {
    let mut spilled = SmallBytes::<2>::new();
    spilled.put_slice(b"abcdef");
    spilled.resize(2, 0);
    let mut inline = SmallBytes::<2>::new();
    inline.put_slice(b"ab");
    assert!(spilled.spilled());
    assert!(!inline.spilled());
    assert!(spilled == inline);
    inline.put_u8(b'c');
    assert!(spilled != inline);
}

#[test]
fn equality_ignores_stale_spare_bytes() {
    let mut a = SmallBytes::<4>::new();
    a.put_slice(b"wxyz");
    a.resize(1, 0);
    let mut b = SmallBytes::<4>::new();
    b.put_u8(b'w');
    assert!(a == b);
    assert_eq!(a.as_ref(), b.as_ref());
}

#[test]
fn reserve_counts_from_the_length() {
    let mut buf = SmallBytes::<4>::new();
    buf.put_slice(b"abc");
    buf.reserve(1);
    assert_eq!(buf.capacity(), 4);
    buf.reserve(6);
    assert_eq!(buf.capacity(), 16);
    assert_eq!(buf.as_ref(), b"abc");
}

#[test]
fn stays_inline_up_to_n_bytes() {
    let mut buf = SmallBytes::<8>::new();
    buf.put_slice(b"12345678");
    assert!(!buf.spilled());
    assert_eq!(buf.capacity(), 8);
    buf.put_u8(b'9');
    assert!(buf.spilled());
    assert_eq!(buf.capacity(), 16);
    buf.resize(1, 0);
    assert!(buf.spilled());
    assert_eq!(buf.capacity(), 16);
}

#[test]
fn cursor_is_buf() {
    let b = SmallBytes::<12>::new();
    let _: &dyn Buf = &std::io::Cursor::new(b);
}

#[test]
fn cursor_reads_the_content() {
    let mut b = SmallBytes::<2>::new();
    b.put_slice(b"xyz");
    b.put_u16(1234);
    let mut c = std::io::Cursor::new(b);
    assert_eq!(c.remaining(), 5);
    assert_eq!(c.get_u8(), b'x');
    c.advance(2);
    assert_eq!(c.get_u16(), 1234);
}

#[test]
fn ordering_is_lexicographic_on_content() {
    let mut a = SmallBytes::<2>::new();
    a.put_slice(b"abc");
    let mut b = SmallBytes::<2>::new();
    b.put_slice(b"abd");
    let mut c = SmallBytes::<2>::new();
    c.put_slice(b"ab");
    assert!(a < b);
    assert!(c < a);
    assert!(b > c);
    let mut d = SmallBytes::<2>::new();
    d.put_slice(b"abcdef");
    d.resize(3, 0);
    assert_eq!(a.partial_cmp(&d), Some(std::cmp::Ordering::Equal));
}
