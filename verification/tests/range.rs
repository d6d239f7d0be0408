use ring_buffer::FindRange;
use ring_buffer::Range;
use ring_buffer::Ring;

const RING_SIZE: usize = 128;

#[test]
pub fn test_range() {
    let mut circ: Ring<i32, RING_SIZE> = Ring::new();
    assert!(circ.range().is_none());
    circ.append(0);
    assert_eq!(circ.range().unwrap().min, 0);
    assert_eq!(circ.range().unwrap().max, 0);
    circ.append(1);
    assert_eq!(circ.range().unwrap().min, 0);
    assert_eq!(circ.range().unwrap().max, 1);
    circ.append(-1);
    assert_eq!(circ.range().unwrap().min, -1);
    assert_eq!(circ.range().unwrap().max, 1);
    for _ in 0..RING_SIZE {
        circ.append(0);
    }
    assert_eq!(circ.range().unwrap().min, 0);
    assert_eq!(circ.range().unwrap().max, 0);
}

#[test]
fn range_of_three_samples() {
    let mut circ: Ring<i16, 3> = Ring::new();
    circ.append(100);
    circ.append(200);
    circ.append(300);
    let range = circ.range().unwrap();
    assert_eq!(range.min, 100);
    assert_eq!(range.max, 300);
    assert_eq!(range.delta(), 200);
}

#[test]
fn range_of_empty_ring_is_absent() {
    let circ: Ring<i16, 2> = Ring::new();
    assert_eq!(circ.len(), 0);
    assert!(circ.is_empty());
    assert!(circ.range().is_none());
}

#[test]
fn range_of_equal_values_is_degenerate() {
    let mut circ: Ring<u32, 4> = Ring::new();
    circ.append(9);
    circ.append(9);
    circ.append(9);
    let range = circ.range().unwrap();
    assert_eq!(range.min, 9);
    assert_eq!(range.max, 9);
    assert_eq!(range.delta(), 0);
}

#[test]
fn range_ignores_evicted_values() {
    let mut circ: Ring<i32, 3> = Ring::new();
    circ.append(100);
    circ.append(1);
    circ.append(2);
    circ.append(3);
    let range = circ.range().unwrap();
    assert_eq!(range.min, 1);
    assert_eq!(range.max, 3);
}

#[test]
fn delta_spans_negative_and_positive() {
    let range = Range { min: -5i32, max: 10i32 };
    assert_eq!(range.delta(), 15);
}
