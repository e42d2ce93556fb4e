use uniterm::buffer::OutputBuffer;

#[test]
fn append_respects_capacity() {
    let mut buf = OutputBuffer::new(5);
    buf.append(&[1, 2, 3]);
    assert!(buf.length() <= buf.capacity());
    buf.append(&[4, 5, 6]);
    assert!(buf.length() <= buf.capacity());
    buf.append(&[7]);
    assert!(buf.length() <= buf.capacity());
    assert_eq!(buf.snapshot(), vec![3, 4, 5, 6, 7]);
}

#[test]
fn append_evicts_oldest_first() {
    let mut buf = OutputBuffer::new(4);
    buf.append(&[1, 2, 3, 4]);
    buf.append(&[5, 6]);
    assert_eq!(buf.snapshot(), vec![3, 4, 5, 6]);
}

#[test]
fn append_chunk_larger_than_capacity() {
    let mut buf = OutputBuffer::new(3);
    buf.append(&[1, 2, 3, 4, 5]);
    assert_eq!(buf.snapshot(), vec![3, 4, 5]);
    assert!(buf.length() <= buf.capacity());
}

#[test]
fn grow_inserts_one_separator() {
    let mut buf = OutputBuffer::new(5);
    buf.append(&[1, 2, 3]);
    buf.resize(10);
    assert_eq!(buf.capacity(), 10);
    assert_eq!(buf.snapshot(), vec![10, 1, 2, 3]);
}

#[test]
fn grow_no_separator_when_starting_with_null() {
    let mut buf = OutputBuffer::new(5);
    buf.append(&[0, 1, 2]);
    buf.resize(10);
    assert_eq!(buf.snapshot(), vec![0, 1, 2]);
}

#[test]
fn grow_empty_buffer_stays_empty() {
    let mut buf = OutputBuffer::new(5);
    buf.resize(10);
    assert_eq!(buf.snapshot(), Vec::<u8>::new());
    assert_eq!(buf.capacity(), 10);
}

#[test]
fn shrink_retains_last_bytes() {
    let mut buf = OutputBuffer::new(10);
    buf.append(&[1, 2, 3, 4, 5, 6]);
    buf.resize(3);
    assert_eq!(buf.capacity(), 3);
    assert_eq!(buf.snapshot(), vec![4, 5, 6]);
}

#[test]
fn shrink_keeps_shorter_content() {
    let mut buf = OutputBuffer::new(10);
    buf.append(&[1, 2]);
    buf.resize(3);
    assert_eq!(buf.snapshot(), vec![1, 2]);
}

#[test]
fn clear_drops_content_keeps_capacity() {
    let mut buf = OutputBuffer::new(7);
    buf.append(&[9, 9, 9]);
    buf.clear();
    assert_eq!(buf.length(), 0);
    assert_eq!(buf.capacity(), 7);
}
