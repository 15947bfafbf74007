//! Size conversions made before compute dispatches: element counts must fit
//! the 32-bit sizes of dispatch parameters, and byte lengths must not
//! overflow.

use vstd::prelude::*;

verus! {

/// Why a dispatch size is unusable.
#[derive(Debug, Clone, Copy, PartialEq, Eq)]
pub enum DispatchSizeError {
    /// The count does not fit in `u32`.
    ValueTooLarge { field: &'static str, value: usize },
    /// The byte length overflows `usize`.
    SizeOverflow { field: &'static str },
}

/// `value` as a `u32`, if it fits.
pub fn usize_to_u32(value: usize, field: &'static str) -> (r: Result<u32, DispatchSizeError>)
    ensures
        value <= u32::MAX ==> r == Ok::<u32, DispatchSizeError>(value as u32),
        value > u32::MAX ==> r == Err::<u32, DispatchSizeError>(
            DispatchSizeError::ValueTooLarge { field, value },
        ),
{
    if value > 0xffff_ffffusize {
        return Err(DispatchSizeError::ValueTooLarge { field, value });
    }
    Ok(value as u32)
}

/// Byte length of `len` elements of `element_size` bytes, if it fits.
pub fn checked_byte_len(len: usize, element_size: usize, field: &'static str) -> (r: Result<
    usize,
    DispatchSizeError,
>)
    ensures
        len * element_size <= usize::MAX ==> r == Ok::<usize, DispatchSizeError>(
            (len * element_size) as usize,
        ),
        len * element_size > usize::MAX ==> r == Err::<usize, DispatchSizeError>(
            DispatchSizeError::SizeOverflow { field },
        ),
{
    match len.checked_mul(element_size) {
        Some(n) => Ok(n),
        None => Err(DispatchSizeError::SizeOverflow { field }),
    }
}

} // verus!
