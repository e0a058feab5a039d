//! Where a patched image goes, and the sizes that saving it must respect.
use vstd::prelude::*;

verus! {

/// Where a patched image is saved.
pub enum SaveStrategy {
    /// Rebuild the whole image into a new file at this path; the source
    /// image is left as it is.
    ToFile(String),
    /// Write the patched boot partition back into the source image.
    Overwrite,
}

/// How many bytes of an image of `image_len` bytes follow its boot partition,
/// which starts `base` bytes in and is `length` bytes long.
pub fn tail_length(image_len: u64, base: u64, length: u64) -> (r: u64)
    requires
        base + length <= image_len,
    ensures
        r == image_len - base - length,
        base + length + r == image_len,
{
    image_len - (base + length)
}

} // verus!
