//! Image extents, formats and the exact RGBA byte length an extent requires.

use vstd::prelude::*;

verus! {

#[derive(Debug, Clone, Copy, PartialEq, Eq, Structural)]
pub enum ImageFormat {
    Rgba8,
}

#[derive(Debug, Clone, Copy, PartialEq, Eq, Structural)]
pub enum ImageColorSpace {
    Srgb,
    Linear,
}

#[derive(Debug, Clone, Copy, PartialEq, Eq, Structural)]
pub struct ImageExtent {
    pub width: u32,
    pub height: u32,
}

impl ImageExtent {
    pub fn new(width: u32, height: u32) -> (r: Self)
        ensures
            r == (ImageExtent { width, height }),
    {
        ImageExtent { width, height }
    }

    pub fn pixel_count(self) -> (r: u64)
        ensures
            r == self.width * self.height,
    {
        proof {
            assert(self.width * self.height <= u64::MAX) by (nonlinear_arith)
                requires self.width <= u32::MAX, self.height <= u32::MAX;
        }
        self.width as u64 * self.height as u64
    }
}

/// Failure to accept pixels for an extent.
#[derive(Debug, Clone, Copy, PartialEq, Eq, Structural)]
pub enum ImageAssetCreateError {
    ZeroExtent { extent: ImageExtent },
    ByteLengthOverflow { extent: ImageExtent },
    PixelLengthMismatch { extent: ImageExtent, expected: usize, actual: usize },
}

/// The outcome of checking that `actual` bytes exactly cover `extent` in `format`.
pub open spec fn rgba_bytes_check(extent: ImageExtent, format: ImageFormat, actual: usize) -> Result<(), ImageAssetCreateError> {
    let expected = extent.width * extent.height * 4;
    if extent.width == 0 || extent.height == 0 {
        Err(ImageAssetCreateError::ZeroExtent { extent })
    } else if expected > usize::MAX {
        Err(ImageAssetCreateError::ByteLengthOverflow { extent })
    } else if actual != expected {
        Err(ImageAssetCreateError::PixelLengthMismatch { extent, expected: expected as usize, actual })
    } else {
        Ok(())
    }
}

/// Checks that `actual` bytes are exactly the RGBA bytes of a non-empty `extent`.
pub fn validate_rgba_bytes(extent: ImageExtent, format: ImageFormat, actual: usize) -> (r: Result<(), ImageAssetCreateError>)
    ensures
        r == rgba_bytes_check(extent, format, actual),
{
    if extent.width == 0 || extent.height == 0 {
        return Err(ImageAssetCreateError::ZeroExtent { extent });
    }
    proof {
        assert(extent.width * extent.height <= u64::MAX) by (nonlinear_arith)
            requires extent.width <= u32::MAX, extent.height <= u32::MAX;
    }
    let expected = match format {
        ImageFormat::Rgba8 => {
            let pixels = extent.width as u64 * extent.height as u64;
            let bytes = match pixels.checked_mul(4) {
                None => return Err(ImageAssetCreateError::ByteLengthOverflow { extent }),
                Some(b) => b,
            };
            if bytes > usize::MAX as u64 {
                return Err(ImageAssetCreateError::ByteLengthOverflow { extent });
            }
            bytes as usize
        },
    };
    if actual != expected {
        return Err(ImageAssetCreateError::PixelLengthMismatch { extent, expected, actual });
    }
    Ok(())
}

/// Where an image came from: the stable id of its source asset, the source's path, the hash
/// of the source bytes and the digest of the import artifact it was recorded under.
#[derive(Debug, Clone, PartialEq, Eq)]
pub struct ImageSourceMetadata {
    stable_id: u128,
    path: String,
    source_hash: [u8; 32],
    artifact_digest: [u8; 32],
}

impl ImageSourceMetadata {
    pub closed spec fn spec_stable_id(&self) -> u128 {
        self.stable_id
    }

    pub closed spec fn spec_path(&self) -> Seq<char> {
        self.path@
    }

    pub closed spec fn spec_source_hash(&self) -> Seq<u8> {
        self.source_hash@
    }

    pub closed spec fn spec_artifact_digest(&self) -> Seq<u8> {
        self.artifact_digest@
    }

    pub fn new(stable_id: u128, path: String, source_hash: [u8; 32], artifact_digest: [u8; 32]) -> (r: Self)
        ensures
            r.spec_stable_id() == stable_id,
            r.spec_path() == path@,
            r.spec_source_hash() == source_hash@,
            r.spec_artifact_digest() == artifact_digest@,
    {
        ImageSourceMetadata { stable_id, path, source_hash, artifact_digest }
    }

    pub fn stable_id(&self) -> (r: u128)
        ensures
            r == self.spec_stable_id(),
    {
        self.stable_id
    }

    pub fn path(&self) -> (r: &str)
        ensures
            r@ == self.spec_path(),
    {
        self.path.as_str()
    }

    pub fn source_hash(&self) -> (r: [u8; 32])
        ensures
            r@ == self.spec_source_hash(),
    {
        self.source_hash
    }

    pub fn artifact_digest(&self) -> (r: [u8; 32])
        ensures
            r@ == self.spec_artifact_digest(),
    {
        self.artifact_digest
    }
}

/// An immutable decoded image: its source, extent, format, color space and exactly its RGBA
/// bytes.
#[derive(Debug, PartialEq, Eq)]
pub struct ImageAsset {
    source: ImageSourceMetadata,
    extent: ImageExtent,
    format: ImageFormat,
    color_space: ImageColorSpace,
    pixels: Vec<u8>,
}

impl ImageAsset {
    pub closed spec fn spec_source(&self) -> ImageSourceMetadata {
        self.source
    }

    pub closed spec fn spec_extent(&self) -> ImageExtent {
        self.extent
    }

    pub closed spec fn spec_format(&self) -> ImageFormat {
        self.format
    }

    pub closed spec fn spec_color_space(&self) -> ImageColorSpace {
        self.color_space
    }

    pub closed spec fn spec_pixels(&self) -> Seq<u8> {
        self.pixels@
    }

    #[verifier::type_invariant]
    closed spec fn exact(self) -> bool {
        rgba_bytes_check(self.extent, self.format, self.pixels@.len() as usize) is Ok && self.pixels@.len() <= usize::MAX
    }

    /// An image of `pixels` from `source`, refused unless they are exactly the RGBA bytes of a
    /// non-empty `extent`.
    pub fn new(
        source: ImageSourceMetadata,
        extent: ImageExtent,
        format: ImageFormat,
        color_space: ImageColorSpace,
        pixels: Vec<u8>,
    ) -> (r: Result<Self, ImageAssetCreateError>)
        ensures
            match rgba_bytes_check(extent, format, pixels@.len() as usize) {
                Err(e) => r == Err::<Self, ImageAssetCreateError>(e),
                Ok(()) => r matches Ok(image) && image.spec_source() == source && image.spec_extent() == extent
                    && image.spec_format() == format && image.spec_color_space() == color_space && image.spec_pixels() == pixels@,
            },
    {
        match validate_rgba_bytes(extent, format, pixels.len()) {
            Err(e) => Err(e),
            Ok(()) => Ok(ImageAsset { source, extent, format, color_space, pixels }),
        }
    }

    pub fn source(&self) -> (r: &ImageSourceMetadata)
        ensures
            *r == self.spec_source(),
    {
        &self.source
    }

    pub fn extent(&self) -> (r: ImageExtent)
        ensures
            r == self.spec_extent(),
    {
        self.extent
    }

    pub fn format(&self) -> (r: ImageFormat)
        ensures
            r == self.spec_format(),
    {
        self.format
    }

    pub fn color_space(&self) -> (r: ImageColorSpace)
        ensures
            r == self.spec_color_space(),
    {
        self.color_space
    }

    pub fn pixels(&self) -> (r: &[u8])
        ensures
            r@ == self.spec_pixels(),
    {
        self.pixels.as_slice()
    }
}

} // verus!
