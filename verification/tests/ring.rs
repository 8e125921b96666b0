use quantis_qrng::utils::RingBuffer;

#[test]
fn new_ring_is_empty() {
    let ring = RingBuffer::new(8);
    assert_eq!(ring.capacity(), 8);
    assert_eq!(ring.available(), 0);
}

#[test]
fn ring_wrap_correctness() {
    let mut ring = RingBuffer::new(8);
    assert_eq!(ring.write(&[1, 2, 3, 4, 5, 6]), 6);
    assert_eq!(ring.read(4), Some(vec![1, 2, 3, 4]));
    assert_eq!(ring.write(&[7, 8, 9, 10, 11]), 5);
    assert_eq!(ring.available(), 7);
    assert_eq!(ring.read(7), Some(vec![5, 6, 7, 8, 9, 10, 11]));
    assert_eq!(ring.available(), 0);
}

#[test]
fn write_across_the_boundary_is_byte_exact() {
    let mut ring = RingBuffer::new(8);
    assert_eq!(ring.write(&[0; 6]), 6);
    assert_eq!(ring.read(6), Some(vec![0; 6]));
    assert_eq!(ring.write(&[1, 2, 3, 4]), 4);
    assert_eq!(ring.available(), 4);
    assert_eq!(ring.read(4), Some(vec![1, 2, 3, 4]));
}

#[test]
fn read_of_more_than_available_changes_nothing() {
    let mut ring = RingBuffer::new(8);
    assert_eq!(ring.write(&[1, 2, 3]), 3);
    assert_eq!(ring.read(4), None);
    assert_eq!(ring.available(), 3);
    assert_eq!(ring.read(3), Some(vec![1, 2, 3]));
}

#[test]
fn write_is_lossy_when_full() {
    let mut ring = RingBuffer::new(4);
    assert_eq!(ring.write(&[1, 2, 3, 4, 5, 6]), 4);
    assert_eq!(ring.available(), 4);
    assert_eq!(ring.write(&[7]), 0);
    assert_eq!(ring.read(4), Some(vec![1, 2, 3, 4]));
}

#[test]
fn read_of_nothing_succeeds() {
    let mut ring = RingBuffer::new(4);
    assert_eq!(ring.read(0), Some(vec![]));
    let mut none = RingBuffer::new(0);
    assert_eq!(none.read(0), Some(vec![]));
    assert_eq!(none.write(&[1]), 0);
    assert_eq!(none.read(1), None);
}

#[test]
fn write_of_nothing_is_a_no_op() {
    let mut ring = RingBuffer::new(4);
    assert_eq!(ring.write(&[]), 0);
    assert_eq!(ring.available(), 0);
}

#[test]
fn available_is_accepted_less_read() {
    let mut ring = RingBuffer::new(5);
    let mut accepted = 0;
    let mut read = 0;
    let writes: [&[u8]; 4] = [&[1, 2, 3], &[4, 5, 6, 7], &[], &[8, 9]];
    let reads = [2, 9, 1, 3];
    for step in 0..4 {
        accepted += ring.write(writes[step]);
        assert!(ring.available() <= ring.capacity());
        assert_eq!(ring.available(), accepted - read);
        if let Some(bytes) = ring.read(reads[step]) {
            assert_eq!(bytes.len(), reads[step]);
            read += bytes.len();
        }
        assert_eq!(ring.available(), accepted - read);
    }
    assert_eq!(accepted, 8);
    assert_eq!(read, 6);
}

#[test]
fn bytes_come_out_once_and_in_write_order() {
    let mut ring = RingBuffer::new(7);
    let mut written: Vec<u8> = Vec::new();
    let mut got: Vec<u8> = Vec::new();
    let mut next: u8 = 0;
    for round in 0..50usize {
        let offer: Vec<u8> = (0..(round % 6)).map(|_| {
            next = next.wrapping_add(1);
            next
        }).collect();
        let taken = ring.write(&offer);
        written.extend_from_slice(&offer[..taken]);
        next = next.wrapping_sub((offer.len() - taken) as u8);
        if let Some(bytes) = ring.read(round % 4) {
            got.extend_from_slice(&bytes);
        }
    }
    let rest = ring.available();
    got.extend_from_slice(&ring.read(rest).unwrap());
    assert_eq!(got, written);
    assert!(written.len() > 7);
}

#[test]
fn full_and_empty_are_told_apart_by_the_count() {
    let mut ring = RingBuffer::new(3);
    assert_eq!(ring.write(&[1, 2, 3]), 3);
    assert_eq!(ring.available(), 3);
    assert_eq!(ring.read(3), Some(vec![1, 2, 3]));
    assert_eq!(ring.available(), 0);
    assert_eq!(ring.write(&[4, 5, 6, 7]), 3);
    assert_eq!(ring.read(3), Some(vec![4, 5, 6]));
}
