use ring_buffer::Ring;

const RING_SIZE: usize = 256;

#[test]
pub fn test_ring() {
    let mut circ: Ring<u32, RING_SIZE> = Ring::new();
    assert_eq!(circ.last(), None);
    assert_eq!(0, circ.len());
    circ.append(1u32);
    assert_eq!(circ.last(), Some(1));
    assert_eq!(1, circ.len());
    circ.append(2);
    circ.append(3);

    let mut iter = circ.iter();

    assert_eq!(iter.next(), Some(1));
    assert_eq!(iter.next(), Some(2));
    assert_eq!(iter.next(), Some(3));
    assert_eq!(iter.next(), None);
    assert_eq!(3, circ.len());
    for i in 0..1000 {
        circ.append(i);
        assert_eq!(circ.last(), Some(i));
    }
    assert_eq!(RING_SIZE, circ.len());

    let mut iter = circ.iter();

    for i in (1000 - RING_SIZE as u32)..1000 {
        assert_eq!(iter.next(), Some(i));
    }
    assert_eq!(iter.next(), None);
}

#[test]
fn appends_within_capacity_keep_all_in_order() {
    let mut circ: Ring<i32, 5> = Ring::new();
    circ.append(7);
    circ.append(-3);
    circ.append(7);
    assert_eq!(circ.len(), 3);
    let mut iter = circ.iter();
    assert_eq!(iter.next(), Some(7));
    assert_eq!(iter.next(), Some(-3));
    assert_eq!(iter.next(), Some(7));
    assert_eq!(iter.next(), None);
}

#[test]
fn appends_beyond_capacity_keep_newest_oldest_first() {
    let mut circ: Ring<i32, 3> = Ring::new();
    circ.append(1);
    circ.append(2);
    circ.append(3);
    circ.append(4);
    circ.append(5);
    assert_eq!(circ.len(), 3);
    let mut iter = circ.iter();
    assert_eq!(iter.next(), Some(3));
    assert_eq!(iter.next(), Some(4));
    assert_eq!(iter.next(), Some(5));
    assert_eq!(iter.next(), None);
    assert_eq!(circ.last(), Some(5));
}

#[test]
fn empty_ring_reports_empty() {
    let circ: Ring<i32, 2> = Ring::new();
    assert_eq!(circ.len(), 0);
    assert!(circ.is_empty());
    assert_eq!(circ.last(), None);
    assert_eq!(circ.size(), 2);
    let mut iter = circ.iter();
    assert_eq!(iter.next(), None);
}

#[test]
fn default_ring_is_empty() {
    let circ: Ring<u32, 4> = Ring::default();
    assert!(circ.is_empty());
    assert_eq!(circ.size(), 4);
}
