use vstd::prelude::*;

use crate::error::ConvError;

verus! {

/// Bytes per sample as the compute program reads and writes them.
pub const SAMPLE_BYTES: u64 = 4;

/// The kernel fits strictly inside a `width` x `height` image.
pub open spec fn kernel_fits(width: u32, height: u32, kernel_size: u32) -> bool {
    0 < kernel_size && kernel_size < width && kernel_size < height
}

/// One output extent under the crop policy.
pub open spec fn cropped(extent: u32, kernel_size: u32) -> int {
    extent - (kernel_size - 1)
}

/// Number of bytes that a `width` x `height` grid of `sample_bytes`-byte samples takes.
pub open spec fn byte_len(width: u32, height: u32, sample_bytes: u32) -> int {
    width as int * height as int * sample_bytes as int
}

/// Output dimensions of one convolution pass under the crop policy.
pub fn crop_dims(image_size: (u32, u32), kernel_size: u32) -> (r: Result<(u32, u32), ConvError>)
    ensures
        r is Ok <==> kernel_fits(image_size.0, image_size.1, kernel_size),
        r is Err ==> r == Err::<(u32, u32), ConvError>(ConvError::InvalidDimensions),
        r is Ok ==> r->Ok_0.0 == cropped(image_size.0, kernel_size) && r->Ok_0.1 == cropped(
            image_size.1,
            kernel_size,
        ),
{
    let (width, height) = image_size;
    if kernel_size == 0 || kernel_size >= width || kernel_size >= height {
        return Err(ConvError::InvalidDimensions);
    }
    let crop = kernel_size - 1;
    Ok((width - crop, height - crop))
}

/// Size in bytes of a `width` x `height` grid of `sample_bytes`-byte
/// samples; an empty grid, or one whose size does not fit in `u64`, is an
/// allocation failure.
pub fn grid_bytes(width: u32, height: u32, sample_bytes: u32) -> (r: Result<u64, ConvError>)
    ensures
        r is Ok <==> 0 < byte_len(width, height, sample_bytes) <= u64::MAX,
        r is Ok ==> r->Ok_0 == byte_len(width, height, sample_bytes),
        r is Err ==> r == Err::<u64, ConvError>(ConvError::Allocation),
{
    assert(width as int * height as int <= u32::MAX as int * u32::MAX as int) by (nonlinear_arith)
        requires width <= u32::MAX, height <= u32::MAX;
    let count = width as u64 * height as u64;
    if width == 0 || height == 0 || sample_bytes == 0 {
        assert(byte_len(width, height, sample_bytes) == 0) by (nonlinear_arith)
            requires width == 0 || height == 0 || sample_bytes == 0;
        return Err(ConvError::Allocation);
    }
    assert(byte_len(width, height, sample_bytes) > 0) by (nonlinear_arith)
        requires width > 0, height > 0, sample_bytes > 0;
    match count.checked_mul(sample_bytes as u64) {
        Some(n) => Ok(n),
        None => Err(ConvError::Allocation),
    }
}

} // verus!
