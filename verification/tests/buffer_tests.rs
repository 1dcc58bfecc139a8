use lv2_ui_ports::buffer::GrowableMessageBuffer;

#[test]
fn fresh_buffer_consumes_nothing() {
    let mut b = GrowableMessageBuffer::new();
    assert_eq!(b.len(), 0);
    assert_eq!(b.consume_once(), None);
}

#[test]
fn replace_then_consume_roundtrip() {
    let mut b = GrowableMessageBuffer::new();
    let payload = [1u8, 2, 3, 4, 5];
    b.replace(&payload);
    assert_eq!(b.len(), 5);
    let view = b.consume_once().expect("a fresh fill must be readable");
    assert_eq!(view.as_slice(), &payload);
    // Read-once: a second consume without an intervening replace finds nothing.
    assert_eq!(b.consume_once(), None);
}

#[test]
fn replace_rearms_consumption() {
    let mut b = GrowableMessageBuffer::new();
    b.replace(&[9u8]);
    assert_eq!(b.consume_once(), Some(vec![9u8]));
    assert_eq!(b.consume_once(), None);
    b.replace(&[8u8, 7]);
    assert_eq!(b.consume_once(), Some(vec![8u8, 7]));
    assert_eq!(b.consume_once(), None);
}

#[test]
fn replace_zero_length_reads_as_absent() {
    let mut b = GrowableMessageBuffer::new();
    b.replace(&[1u8, 2, 3]);
    b.replace(&[]);
    assert_eq!(b.len(), 0);
    assert_eq!(b.consume_once(), None);
}

#[test]
fn append_unaligned_starts_at_end() {
    let mut b = GrowableMessageBuffer::new();
    let s0 = b.append(3, false);
    assert_eq!(s0, 0);
    assert_eq!(b.len(), 3);
    let s1 = b.append(2, false);
    assert_eq!(s1, 3);
    assert_eq!(b.len(), 5);
}

#[test]
fn append_aligned_pads_to_eight() {
    let mut b = GrowableMessageBuffer::new();
    // Empty buffer: already aligned, no padding.
    let s0 = b.append(3, true);
    assert_eq!(s0, 0);
    assert_eq!(b.len(), 3);
    // k = 3: the new region starts at 3 + ((8 - 3 % 8) % 8) = 8.
    let s1 = b.append(4, true);
    assert_eq!(s1, 8);
    assert_eq!(b.len(), 12);
    // k = 12: the new region starts at 12 + ((8 - 12 % 8) % 8) = 16.
    let s2 = b.append(1, true);
    assert_eq!(s2, 16);
    assert_eq!(b.len(), 17);
    // k = 17 but alignment not requested: no padding.
    let s3 = b.append(1, false);
    assert_eq!(s3, 17);
    assert_eq!(b.len(), 18);
}

#[test]
fn append_fills_with_zero_bytes() {
    let mut b = GrowableMessageBuffer::new();
    b.replace(&[0xffu8; 3]);
    b.append(2, true);
    assert_eq!(b.bytes().as_slice(), &[0xff, 0xff, 0xff, 0, 0, 0, 0, 0, 0, 0]);
}

#[test]
fn append_zero_bytes_is_legal() {
    let mut b = GrowableMessageBuffer::new();
    b.replace(&[1u8, 2, 3]);
    let start = b.append(0, true);
    assert_eq!(start, 8);
    assert_eq!(b.len(), 8);
}

#[test]
fn write_at_fills_an_appended_region() {
    let mut b = GrowableMessageBuffer::new();
    let start = b.append(4, false);
    b.write_at(start, &[10u8, 20, 30, 40]);
    assert_eq!(b.bytes().as_slice(), &[10u8, 20, 30, 40]);
    b.write_at(start + 1, &[99u8, 98]);
    assert_eq!(b.bytes().as_slice(), &[10u8, 99, 98, 40]);
}

#[test]
fn clear_resets_contents() {
    let mut b = GrowableMessageBuffer::new();
    b.replace(&[1u8, 2, 3]);
    b.clear();
    assert_eq!(b.len(), 0);
    assert_eq!(b.consume_once(), None);
}

#[test]
fn take_bytes_hands_out_and_clears() {
    let mut b = GrowableMessageBuffer::new();
    let start = b.append(2, false);
    b.write_at(start, &[5u8, 6]);
    let taken = b.take_bytes();
    assert_eq!(taken, vec![5u8, 6]);
    assert_eq!(b.len(), 0);
    assert_eq!(b.consume_once(), None);
}
