use ring_buffer::check_ring_size;
use ring_buffer::Error;

#[test]
fn mismatched_width_is_reported_with_both_sizes() {
    let err = check_ring_size(1, 2);
    assert!(matches!(
        err,
        Err(Error::RingSizeMismatch { width: 1, ring_size: 2 })
    ));
}

#[test]
fn matching_width_is_accepted() {
    assert!(check_ring_size(2, 2).is_ok());
    assert!(check_ring_size(0, 0).is_ok());
}
