use vstd::prelude::*;

verus! {

/// Errors in creating a histogram out of a ring's values.
#[derive(Debug)]
pub enum Error {
    /// The ring size must match the width (distance over the x axis) of the
    /// drawing window: one column per ring slot.
    RingSizeMismatch {
        /// The window width
        width: u32,
        /// The data size
        ring_size: usize,
    },
    /// Draw error
    DrawError,
}

/// Boundary check for a consumer that aligns one drawing column per ring
/// slot: accepts exactly when the consumer's width equals the ring's
/// capacity, and otherwise reports both sizes.
pub fn check_ring_size(width: u32, ring_size: usize) -> (r: Result<(), Error>)
    ensures
        (r is Ok) <==> ring_size == width as usize,
        r matches Err(e) ==> e == (Error::RingSizeMismatch { width, ring_size }),
{
    if ring_size != width as usize {
        Err(Error::RingSizeMismatch { width, ring_size })
    } else {
        Ok(())
    }
}

} // verus!
