//! PNG header preflight, metadata screening and row conversion to RGBA8, on raw bytes.

use vstd::prelude::*;

use crate::image::import::{ImagePngFailureKind, ImageImportStage, ImageUnsupportedFeature, ImagePublicationFailureKind, ImageSourceFailureKind};
use crate::image::limits::{
    per_image_error, png_plan, BudgetErrorModel, ImageImportBudgetError, ImageImportLimitKind,
    ImageImportLimits, ImageImportMemoryPlan,
};

verus! {

/// Failures of importing one image that carry only plain values.
#[derive(Debug, Clone, Copy, PartialEq, Eq, Structural)]
pub enum ImageImportError {
    Budget { stage: ImageImportStage, error: ImageImportBudgetError },
    Unsupported { stage: ImageImportStage, feature: ImageUnsupportedFeature },
    Png { stage: ImageImportStage, kind: ImagePngFailureKind },
    Source { stage: ImageImportStage, kind: ImageSourceFailureKind },
    Publication(ImagePublicationFailureKind),
    Cancelled { stage: ImageImportStage },
}

impl ImageImportError {
    pub open spec fn spec_stage(self) -> ImageImportStage {
        match self {
            ImageImportError::Budget { stage, .. } => stage,
            ImageImportError::Unsupported { stage, .. } => stage,
            ImageImportError::Png { stage, .. } => stage,
            ImageImportError::Source { stage, .. } => stage,
            ImageImportError::Publication(_) => ImageImportStage::Publication,
            ImageImportError::Cancelled { stage } => stage,
        }
    }

    pub fn stage(&self) -> (r: ImageImportStage)
        ensures
            r == self.spec_stage(),
    {
        match self {
            ImageImportError::Budget { stage, .. } => *stage,
            ImageImportError::Unsupported { stage, .. } => *stage,
            ImageImportError::Png { stage, .. } => *stage,
            ImageImportError::Source { stage, .. } => *stage,
            ImageImportError::Publication(_) => ImageImportStage::Publication,
            ImageImportError::Cancelled { stage } => *stage,
        }
    }

    pub open spec fn spec_stable_code(self) -> &'static str {
        match self {
            ImageImportError::Budget { .. } => "image.import-budget-exceeded",
            ImageImportError::Unsupported { .. } => "image.import-feature-unsupported",
            ImageImportError::Png { .. } => "image.import-png-invalid",
            ImageImportError::Source { .. } => "image.import-source-failed",
            ImageImportError::Publication(_) => "image.import-publication-invalid",
            ImageImportError::Cancelled { .. } => "image.import-cancelled",
        }
    }

    pub fn stable_code(&self) -> (r: &'static str)
        ensures
            r == self.spec_stable_code(),
    {
        match self {
            ImageImportError::Budget { .. } => "image.import-budget-exceeded",
            ImageImportError::Unsupported { .. } => "image.import-feature-unsupported",
            ImageImportError::Png { .. } => "image.import-png-invalid",
            ImageImportError::Source { .. } => "image.import-source-failed",
            ImageImportError::Publication(_) => "image.import-publication-invalid",
            ImageImportError::Cancelled { .. } => "image.import-cancelled",
        }
    }

    pub open spec fn spec_safe_summary(self) -> &'static str {
        match self {
            ImageImportError::Budget { .. } => "Image import budget was exceeded",
            ImageImportError::Unsupported { .. } => "PNG feature is unsupported",
            ImageImportError::Png { .. } => "PNG input is invalid",
            ImageImportError::Source { .. } => "Image source access failed",
            ImageImportError::Publication(_) => "Image publication admission is invalid",
            ImageImportError::Cancelled { .. } => "Image import was cancelled",
        }
    }

    pub fn safe_summary(&self) -> (r: &'static str)
        ensures
            r == self.spec_safe_summary(),
    {
        match self {
            ImageImportError::Budget { .. } => "Image import budget was exceeded",
            ImageImportError::Unsupported { .. } => "PNG feature is unsupported",
            ImageImportError::Png { .. } => "PNG input is invalid",
            ImageImportError::Source { .. } => "Image source access failed",
            ImageImportError::Publication(_) => "Image publication admission is invalid",
            ImageImportError::Cancelled { .. } => "Image import was cancelled",
        }
    }

    pub fn budget_error(&self) -> (r: Option<&ImageImportBudgetError>)
        ensures
            match *self {
                ImageImportError::Budget { error, .. } => r matches Some(e) && *e == error,
                _ => r is None,
            },
    {
        match self {
            ImageImportError::Budget { error, .. } => Some(error),
            _ => None,
        }
    }
}

/// Width, height and interlacing read from a PNG's `IHDR` chunk.
#[derive(Debug, Clone, Copy, PartialEq, Eq, Structural)]
pub struct PngHeaderPreflight {
    pub width: u32,
    pub height: u32,
    pub interlaced: bool,
}

pub const PNG_IHDR_BYTES: usize = 33;

/// The PNG signature.
pub open spec fn png_signature() -> Seq<u8> {
    seq![0x89u8, 0x50u8, 0x4eu8, 0x47u8, 0x0du8, 0x0au8, 0x1au8, 0x0au8]
}

/// Big-endian `u32` of four bytes.
pub open spec fn be_u32(b0: u8, b1: u8, b2: u8, b3: u8) -> u32 {
    (b0 as int * 0x1000000 + b1 as int * 0x10000 + b2 as int * 0x100 + b3 as int) as u32
}

/// The outcome of reading the header: truncated below 33 bytes; invalid unless the signature
/// is followed by a 13-byte `IHDR` chunk; else its width, height and interlace flag.
pub open spec fn png_preflight(bytes: Seq<u8>) -> Result<PngHeaderPreflight, ImageImportError> {
    if bytes.len() < PNG_IHDR_BYTES {
        Err(ImageImportError::Png { stage: ImageImportStage::Header, kind: ImagePngFailureKind::Truncated })
    } else if bytes.take(8) != png_signature()
        || bytes.subrange(8, 12) != seq![0u8, 0u8, 0u8, 13u8]
        || bytes.subrange(12, 16) != seq![0x49u8, 0x48u8, 0x44u8, 0x52u8] {
        Err(ImageImportError::Png { stage: ImageImportStage::Header, kind: ImagePngFailureKind::InvalidData })
    } else {
        Ok(PngHeaderPreflight {
            width: be_u32(bytes[16], bytes[17], bytes[18], bytes[19]),
            height: be_u32(bytes[20], bytes[21], bytes[22], bytes[23]),
            interlaced: bytes[28] == 1,
        })
    }
}

fn read_be_u32(bytes: &[u8], at: usize) -> (r: u32)
    requires
        at + 4 <= bytes@.len(),
    ensures
        r == be_u32(bytes@[at as int], bytes@[at + 1], bytes@[at + 2], bytes@[at + 3]),
{
    let value: u64 = (bytes[at] as u64) * 0x1000000 + (bytes[at + 1] as u64) * 0x10000 + (bytes[at + 2] as u64) * 0x100 + (bytes[at + 3] as u64);
    value as u32
}

fn bytes_equal(bytes: &[u8], at: usize, expected: &[u8]) -> (r: bool)
    requires
        at + expected@.len() <= bytes@.len(),
    ensures
        r == (bytes@.subrange(at as int, at + expected@.len()) == expected@),
{
    let total = bytes.len();
    let mut i: usize = 0;
    while i < expected.len()
        invariant
            total == bytes@.len(),
            at + expected@.len() <= bytes@.len(),
            i <= expected@.len(),
            forall|k: int| 0 <= k < i ==> bytes@[at + k] == expected@[k],
        decreases expected@.len() - i,
    {
        if bytes[at + i] != expected[i] {
            proof {
                assert(bytes@.subrange(at as int, at + expected@.len())[i as int] != expected@[i as int]);
            }
            return false;
        }
        i = i + 1;
    }
    proof {
        assert(bytes@.subrange(at as int, at + expected@.len()) =~= expected@);
    }
    true
}

/// Reads the `IHDR` header of a PNG.
pub fn preflight_png(bytes: &[u8]) -> (r: Result<PngHeaderPreflight, ImageImportError>)
    ensures
        r == png_preflight(bytes@),
{
    if bytes.len() < PNG_IHDR_BYTES {
        return Err(ImageImportError::Png { stage: ImageImportStage::Header, kind: ImagePngFailureKind::Truncated });
    }
    let signature: [u8; 8] = [0x89, 0x50, 0x4e, 0x47, 0x0d, 0x0a, 0x1a, 0x0a];
    let length: [u8; 4] = [0, 0, 0, 13];
    let ihdr: [u8; 4] = [0x49, 0x48, 0x44, 0x52];
    proof {
        assert(signature@ =~= png_signature());
        assert(length@ =~= seq![0u8, 0u8, 0u8, 13u8]);
        assert(ihdr@ =~= seq![0x49u8, 0x48u8, 0x44u8, 0x52u8]);
        assert(bytes@.subrange(0, 8) =~= bytes@.take(8));
    }
    if !bytes_equal(bytes, 0, signature.as_slice()) || !bytes_equal(bytes, 8, length.as_slice()) || !bytes_equal(bytes, 12, ihdr.as_slice()) {
        return Err(ImageImportError::Png { stage: ImageImportStage::Header, kind: ImagePngFailureKind::InvalidData });
    }
    let width = read_be_u32(bytes, 16);
    let height = read_be_u32(bytes, 20);
    Ok(PngHeaderPreflight { width, height, interlaced: bytes[28] == 1 })
}

/// The chunk type `eXIf`.
pub open spec fn exif_tag() -> Seq<u8> {
    seq![0x65u8, 0x58u8, 0x49u8, 0x66u8]
}

/// The chunk type `IEND`.
pub open spec fn iend_tag() -> Seq<u8> {
    seq![0x49u8, 0x45u8, 0x4eu8, 0x44u8]
}

/// Walks the chunks from `offset`: an `eXIf` chunk is refused; the walk stops at a header
/// that does not fit, at a chunk that runs past the end, or at `IEND`.
pub open spec fn metadata_check(bytes: Seq<u8>, offset: int) -> Result<(), ImageImportError>
    decreases bytes.len() + 1 - offset,
{
    if offset < 0 || offset + 8 > bytes.len() || offset + 8 > usize::MAX {
        Ok(())
    } else {
        let length = be_u32(bytes[offset], bytes[offset + 1], bytes[offset + 2], bytes[offset + 3]) as int;
        let kind = bytes.subrange(offset + 4, offset + 8);
        let next = offset + 8 + length + 4;
        if kind == exif_tag() {
            Err(ImageImportError::Unsupported { stage: ImageImportStage::Metadata, feature: ImageUnsupportedFeature::EmbeddedMetadata })
        } else if next > usize::MAX || next > bytes.len() || kind == iend_tag() {
            Ok(())
        } else {
            metadata_check(bytes, next)
        }
    }
}

/// Refuses PNGs that carry an `eXIf` chunk before `IEND`.
pub fn reject_unbounded_metadata(bytes: &[u8]) -> (r: Result<(), ImageImportError>)
    ensures
        r == metadata_check(bytes@, 8),
{
    let exif: [u8; 4] = [0x65, 0x58, 0x49, 0x66];
    let iend: [u8; 4] = [0x49, 0x45, 0x4e, 0x44];
    proof {
        assert(exif@ =~= exif_tag());
        assert(iend@ =~= iend_tag());
    }
    let mut offset: usize = 8;
    loop
        invariant
            exif@ == exif_tag(),
            iend@ == iend_tag(),
            metadata_check(bytes@, offset as int) == metadata_check(bytes@, 8),
        decreases bytes@.len() + 1 - offset,
    {
        let header_end = match offset.checked_add(8) {
            None => return Ok(()),
            Some(end) => end,
        };
        if header_end > bytes.len() {
            return Ok(());
        }
        let length = read_be_u32(bytes, offset) as usize;
        if bytes_equal(bytes, offset + 4, exif.as_slice()) {
            return Err(ImageImportError::Unsupported { stage: ImageImportStage::Metadata, feature: ImageUnsupportedFeature::EmbeddedMetadata });
        }
        let next = match header_end.checked_add(length) {
            None => return Ok(()),
            Some(end) => match end.checked_add(4) {
                None => return Ok(()),
                Some(next) => next,
            },
        };
        if next > bytes.len() || bytes_equal(bytes, offset + 4, iend.as_slice()) {
            return Ok(());
        }
        offset = next;
    }
}

/// Refuses an image whose encoded bytes exceed the encoded limit, at admission.
/// Checks the length of a source read that stopped one byte past `limit`: more than `limit`
/// bytes read is refused as over the encoded limit at the read stage, the observed size
/// reported as `limit + 1` (saturating).
pub fn check_read_length(read_bytes: usize, limit: usize) -> (r: Result<(), ImageImportError>)
    ensures
        read_bytes <= limit ==> r is Ok,
        read_bytes > limit ==> (r matches Err(ImageImportError::Budget { stage, error })
            && stage == ImageImportStage::SourceRead
            && error.model() == per_image_error(ImageImportLimitKind::EncodedBytes,
                Some(if limit == u64::MAX { u64::MAX } else { (limit + 1) as u64 }), limit as u64)),
{
    if read_bytes <= limit {
        Ok(())
    } else {
        let observed = (limit as u64).saturating_add(1);
        Err(ImageImportError::Budget {
            stage: ImageImportStage::SourceRead,
            error: ImageImportBudgetError::per_image(ImageImportLimitKind::EncodedBytes, Some(observed), limit as u64),
        })
    }
}

pub fn check_encoded_limit(limits: ImageImportLimits, encoded_bytes: usize) -> (r: Result<(), ImageImportError>)
    ensures
        encoded_bytes <= limits.model().encoded ==> r is Ok,
        encoded_bytes > limits.model().encoded ==> (r matches Err(ImageImportError::Budget { stage, error })
            && stage == ImageImportStage::Admission
            && error.model() == per_image_error(ImageImportLimitKind::EncodedBytes, Some(encoded_bytes as u64), limits.model().encoded as u64)),
{
    let limit = limits.max_encoded_bytes().get();
    if encoded_bytes <= limit {
        Ok(())
    } else {
        Err(ImageImportError::Budget {
            stage: ImageImportStage::Admission,
            error: ImageImportBudgetError::per_image(ImageImportLimitKind::EncodedBytes, Some(encoded_bytes as u64), limit as u64),
        })
    }
}

/// The stage a plan's limit error is reported at.
pub open spec fn plan_stage(kind: ImageImportLimitKind) -> ImageImportStage {
    match kind {
        ImageImportLimitKind::EncodedBytes => ImageImportStage::SourceRead,
        ImageImportLimitKind::Width | ImageImportLimitKind::Height | ImageImportLimitKind::Pixels | ImageImportLimitKind::RgbaBytes => ImageImportStage::Header,
        ImageImportLimitKind::DecoderWorkBytes | ImageImportLimitKind::AggregateInFlightBytes => ImageImportStage::Metadata,
    }
}

pub fn plan_error_stage(error: ImageImportBudgetError) -> (r: ImageImportStage)
    ensures
        r == plan_stage(error.model().kind),
{
    match error.kind() {
        ImageImportLimitKind::EncodedBytes => ImageImportStage::SourceRead,
        ImageImportLimitKind::Width | ImageImportLimitKind::Height | ImageImportLimitKind::Pixels | ImageImportLimitKind::RgbaBytes => ImageImportStage::Header,
        ImageImportLimitKind::DecoderWorkBytes | ImageImportLimitKind::AggregateInFlightBytes => ImageImportStage::Metadata,
    }
}

/// Preflights PNG bytes: the header, no interlacing, no `eXIf` metadata, then the memory
/// plan, each failure at its stage.
/// The preflight of `bytes` and their memory plan, or the first refusal: the header, then
/// interlacing, then unbounded metadata, then the plan's limits.
pub open spec fn png_preflight_plan(
    limits: ImageImportLimits,
    bytes: Seq<u8>,
    encoded_allocation_bytes: usize,
    publication_overlap_bytes: usize,
) -> Result<(PngHeaderPreflight, crate::image::limits::PlanModel), ImageImportError> {
    match png_preflight(bytes) {
        Err(e) => Err(e),
        Ok(h) => if h.interlaced {
            Err(ImageImportError::Unsupported { stage: ImageImportStage::Header, feature: ImageUnsupportedFeature::Interlacing })
        } else {
            match metadata_check(bytes, 8) {
                Err(e) => Err(e),
                Ok(()) => match png_plan(limits.model(), bytes.len() as usize, encoded_allocation_bytes, h.width, h.height, publication_overlap_bytes) {
                    Ok(p) => Ok((h, p)),
                    Err(e) => Err(ImageImportError::Budget { stage: plan_stage(e.kind), error: ImageImportBudgetError::from_model(e) }),
                },
            }
        },
    }
}

pub fn preflight_png_memory_plan(
    limits: ImageImportLimits,
    source_bytes: &[u8],
    encoded_allocation_bytes: usize,
    publication_overlap_bytes: usize,
) -> (r: Result<(PngHeaderPreflight, ImageImportMemoryPlan), ImageImportError>)
    ensures
        match png_preflight_plan(limits, source_bytes@, encoded_allocation_bytes, publication_overlap_bytes) {
            Err(e) => r == Err::<(PngHeaderPreflight, ImageImportMemoryPlan), ImageImportError>(e),
            Ok((h, p)) => r matches Ok((header, plan)) && header == h && plan.model() == p,
        },
{
    let preflight = match preflight_png(source_bytes) {
        Err(e) => return Err(e),
        Ok(p) => p,
    };
    if preflight.interlaced {
        return Err(ImageImportError::Unsupported { stage: ImageImportStage::Header, feature: ImageUnsupportedFeature::Interlacing });
    }
    match reject_unbounded_metadata(source_bytes) {
        Err(e) => return Err(e),
        Ok(()) => {},
    }
    match ImageImportMemoryPlan::for_png(limits, source_bytes.len(), encoded_allocation_bytes, preflight.width, preflight.height, publication_overlap_bytes) {
        Err(error) => {
            proof {
                ImageImportBudgetError::lemma_from_model(error);
            }
            Err(ImageImportError::Budget { stage: plan_error_stage(error), error })
        },
        Ok(plan) => Ok((preflight, plan)),
    }
}

/// Output color models of the PNG decoder.
#[derive(Debug, Clone, Copy, PartialEq, Eq, Structural)]
pub enum PngColorType {
    Grayscale,
    Rgb,
    Indexed,
    GrayscaleAlpha,
    Rgba,
}

/// Channels per pixel of a decoded row, or `None` for indexed color.
pub open spec fn color_channels(color: PngColorType) -> Option<int> {
    match color {
        PngColorType::Grayscale => Some(1),
        PngColorType::GrayscaleAlpha => Some(2),
        PngColorType::Rgb => Some(3),
        PngColorType::Rgba => Some(4),
        PngColorType::Indexed => None,
    }
}

/// The RGBA8 pixel `p` of a decoded row: gray expands to RGB, missing alpha is opaque.
pub open spec fn rgba_pixel(color: PngColorType, source: Seq<u8>, p: int) -> Seq<u8> {
    match color {
        PngColorType::Grayscale => seq![source[p], source[p], source[p], 255u8],
        PngColorType::GrayscaleAlpha => seq![source[2 * p], source[2 * p], source[2 * p], source[2 * p + 1]],
        PngColorType::Rgb => seq![source[3 * p], source[3 * p + 1], source[3 * p + 2], 255u8],
        _ => seq![source[4 * p], source[4 * p + 1], source[4 * p + 2], source[4 * p + 3]],
    }
}

/// The RGBA8 bytes of a decoded row of `width` pixels.
pub open spec fn rgba_row(color: PngColorType, row: Seq<u8>, width: u32) -> Seq<u8> {
    Seq::new((4 * width) as nat, |k: int| rgba_pixel(color, row, k / 4)[k % 4])
}

/// The RGBA8 bytes of an image whose decoded rows are `rows`, each `width` pixels wide, top
/// row first.
pub open spec fn rgba_image(color: PngColorType, rows: Seq<Seq<u8>>, width: u32) -> Seq<u8>
    decreases rows.len(),
{
    if rows.len() == 0 {
        Seq::empty()
    } else {
        rgba_image(color, rows.drop_last(), width) + rgba_row(color, rows.last(), width)
    }
}

/// An image of `rows.len()` rows holds four bytes per pixel.
pub proof fn lemma_rgba_image_len(color: PngColorType, rows: Seq<Seq<u8>>, width: u32)
    ensures
        rgba_image(color, rows, width).len() == rows.len() * (4 * width),
    decreases rows.len(),
{
    if rows.len() > 0 {
        lemma_rgba_image_len(color, rows.drop_last(), width);
        assert(rows.len() * (4 * width) == (rows.len() - 1) * (4 * width) + 4 * width) by (nonlinear_arith);
    }
}

/// Pixel `p` of a converted row is made from the samples of pixel `p` alone: a gray sample is
/// copied to red, green and blue, a gray+alpha pixel takes its gray from sample `2p` and its
/// alpha from sample `2p + 1`, an RGB pixel takes samples `3p..3p + 3` and is opaque, and an
/// RGBA pixel is copied as it stands.
pub proof fn lemma_rgba_row_pixel(color: PngColorType, row: Seq<u8>, width: u32, p: int)
    requires
        0 <= p < width,
    ensures
        color is Grayscale ==> {
            let out = rgba_row(color, row, width);
            &&& out[4 * p] == row[p]
            &&& out[4 * p + 1] == row[p]
            &&& out[4 * p + 2] == row[p]
            &&& out[4 * p + 3] == 255u8
        },
        color is GrayscaleAlpha ==> {
            let out = rgba_row(color, row, width);
            &&& out[4 * p] == row[2 * p]
            &&& out[4 * p + 1] == row[2 * p]
            &&& out[4 * p + 2] == row[2 * p]
            &&& out[4 * p + 3] == row[2 * p + 1]
        },
        color is Rgb ==> {
            let out = rgba_row(color, row, width);
            &&& out[4 * p] == row[3 * p]
            &&& out[4 * p + 1] == row[3 * p + 1]
            &&& out[4 * p + 2] == row[3 * p + 2]
            &&& out[4 * p + 3] == 255u8
        },
        color is Rgba ==> {
            let out = rgba_row(color, row, width);
            &&& out[4 * p] == row[4 * p]
            &&& out[4 * p + 1] == row[4 * p + 1]
            &&& out[4 * p + 2] == row[4 * p + 2]
            &&& out[4 * p + 3] == row[4 * p + 3]
        },
{
    let out = rgba_row(color, row, width);
    assert((4 * p) / 4 == p && (4 * p) % 4 == 0);
    assert((4 * p + 1) / 4 == p && (4 * p + 1) % 4 == 1);
    assert((4 * p + 2) / 4 == p && (4 * p + 2) % 4 == 2);
    assert((4 * p + 3) / 4 == p && (4 * p + 3) % 4 == 3);
    assert(out[4 * p] == rgba_pixel(color, row, p)[0]);
    assert(out[4 * p + 1] == rgba_pixel(color, row, p)[1]);
    assert(out[4 * p + 2] == rgba_pixel(color, row, p)[2]);
    assert(out[4 * p + 3] == rgba_pixel(color, row, p)[3]);
}

/// Row `r` of a converted image is the converted decoded row `r`, at its place: the bytes from
/// `r * 4 * width` up to `(r + 1) * 4 * width`, top row first.
pub proof fn lemma_rgba_image_row(color: PngColorType, rows: Seq<Seq<u8>>, width: u32, r: int)
    requires
        0 <= r < rows.len(),
    ensures
        rgba_image(color, rows, width).subrange(r * (4 * width), (r + 1) * (4 * width))
            == rgba_row(color, rows[r], width),
    decreases rows.len(),
{
    let n = rows.len() - 1;
    let w4 = 4 * width;
    lemma_rgba_image_len(color, rows.drop_last(), width);
    let front = rgba_image(color, rows.drop_last(), width);
    let last = rgba_row(color, rows.last(), width);
    assert(rgba_image(color, rows, width) == front + last);
    assert(front.len() == n * w4);
    assert(r * w4 <= n * w4 && (r + 1) * w4 <= (n + 1) * w4) by (nonlinear_arith)
        requires r <= n, w4 >= 0;
    assert((r + 1) * w4 == r * w4 + w4) by (nonlinear_arith);
    if r == n {
        assert((front + last).subrange(r * w4, (r + 1) * w4) =~= last);
    } else {
        lemma_rgba_image_row(color, rows.drop_last(), width, r);
        assert((r + 1) * w4 <= n * w4) by (nonlinear_arith)
            requires r + 1 <= n, w4 >= 0;
        assert((front + last).subrange(r * w4, (r + 1) * w4) =~= front.subrange(r * w4, (r + 1) * w4));
    }
}

/// Whether every row holds the samples of `width` pixels of `color`.
pub open spec fn rows_cover(color: PngColorType, rows: Seq<Seq<u8>>, width: u32) -> bool {
    forall|r: int| 0 <= r < rows.len() ==> #[trigger] rows[r].len() >= color_channels(color)->0 * width
}

/// The RGBA8 bytes of decoded `rows` of `width` pixels in `color`: refused for indexed color,
/// and as a decoder contract failure when a row is short or a row's RGBA bytes do not fit in
/// memory.
pub fn assemble_rgba(color: PngColorType, rows: &Vec<Vec<u8>>, width: u32) -> (r: Result<Vec<u8>, ImageImportError>)
    ensures
        color is Indexed ==> r == Err::<Vec<u8>, ImageImportError>(
            ImageImportError::Unsupported { stage: ImageImportStage::Decode, feature: ImageUnsupportedFeature::OutputColorModel }),
        !(color is Indexed) && (!rows_cover(color, rows.deep_view(), width) || 4 * width > usize::MAX) ==> r == Err::<Vec<u8>, ImageImportError>(
            ImageImportError::Png { stage: ImageImportStage::Decode, kind: ImagePngFailureKind::DecoderContract }),
        !(color is Indexed) && rows_cover(color, rows.deep_view(), width) && 4 * width <= usize::MAX ==> (
            r matches Ok(v) && v@ == rgba_image(color, rows.deep_view(), width)),
{
    if let PngColorType::Indexed = color {
        return Err(ImageImportError::Unsupported { stage: ImageImportStage::Decode, feature: ImageUnsupportedFeature::OutputColorModel });
    }
    let row_bytes = match (width as usize).checked_mul(4) {
        Some(n) => n,
        None => return Err(ImageImportError::Png { stage: ImageImportStage::Decode, kind: ImagePngFailureKind::DecoderContract }),
    };
    let mut pixels: Vec<u8> = Vec::new();
    let mut i: usize = 0;
    while i < rows.len()
        invariant
            i <= rows@.len(),
            !(color is Indexed),
            row_bytes == 4 * width,
            forall|r: int| 0 <= r < i ==> #[trigger] rows.deep_view()[r].len() >= color_channels(color)->0 * width,
            pixels@ == rgba_image(color, rows.deep_view().take(i as int), width),
        decreases rows@.len() - i,
    {
        let mut destination: Vec<u8> = Vec::new();
        let mut k: usize = 0;
        while k < row_bytes
            invariant
                k <= row_bytes,
                destination@.len() == k,
            decreases row_bytes - k,
        {
            destination.push(0);
            k = k + 1;
        }
        match write_rgba8_row(color, rows[i].as_slice(), &mut destination, width) {
            Err(e) => {
                proof {
                    assert(!rows_cover(color, rows.deep_view(), width)) by {
                        assert(rows.deep_view()[i as int] == rows@[i as int]@);
                    }
                }
                return Err(e);
            },
            Ok(()) => {},
        }
        let ghost before = pixels@;
        let mut k: usize = 0;
        while k < row_bytes
            invariant
                k <= row_bytes,
                row_bytes == destination@.len(),
                pixels@ == before + destination@.take(k as int),
            decreases row_bytes - k,
        {
            pixels.push(destination[k]);
            proof {
                assert(destination@.take(k + 1) =~= destination@.take(k as int).push(destination@[k as int]));
            }
            k = k + 1;
        }
        proof {
            assert(rows.deep_view()[i as int] == rows@[i as int]@);
            assert(destination@.take(row_bytes as int) =~= destination@);
            let taken = rows.deep_view().take(i + 1);
            assert(taken.drop_last() =~= rows.deep_view().take(i as int));
            assert(taken.last() == rows.deep_view()[i as int]);
        }
        i = i + 1;
    }
    proof {
        assert(rows.deep_view().take(rows@.len() as int) =~= rows.deep_view());
    }
    Ok(pixels)
}

/// Converts one decoded row of `width` pixels into RGBA8.
pub fn write_rgba8_row(color: PngColorType, source: &[u8], destination: &mut Vec<u8>, width: u32) -> (r: Result<(), ImageImportError>)
    ensures
        color is Indexed ==> (r == Err::<(), ImageImportError>(ImageImportError::Unsupported { stage: ImageImportStage::Decode, feature: ImageUnsupportedFeature::OutputColorModel })
            && final(destination)@ == old(destination)@),
        !(color is Indexed) && (source@.len() < color_channels(color)->0 * width || old(destination)@.len() != 4 * width) ==> (
            r == Err::<(), ImageImportError>(ImageImportError::Png { stage: ImageImportStage::Decode, kind: ImagePngFailureKind::DecoderContract })
            && final(destination)@ == old(destination)@),
        !(color is Indexed) && source@.len() >= color_channels(color)->0 * width && old(destination)@.len() == 4 * width ==> (
            r is Ok && final(destination)@.len() == old(destination)@.len()
            && forall|p: int| 0 <= p < width ==> #[trigger] final(destination)@.subrange(4 * p, 4 * p + 4) == rgba_pixel(color, source@, p)),
        !(color is Indexed) && source@.len() >= color_channels(color)->0 * width && old(destination)@.len() == 4 * width ==>
            final(destination)@ == rgba_row(color, source@, width),
{
    let w = width as usize;
    let source_total = source.len();
    let destination_total = destination.len();
    let channels: usize = match color {
        PngColorType::Grayscale => 1,
        PngColorType::GrayscaleAlpha => 2,
        PngColorType::Rgb => 3,
        PngColorType::Rgba => 4,
        PngColorType::Indexed => {
            return Err(ImageImportError::Unsupported { stage: ImageImportStage::Decode, feature: ImageUnsupportedFeature::OutputColorModel });
        },
    };
    let source_length = match w.checked_mul(channels) {
        None => return Err(ImageImportError::Png { stage: ImageImportStage::Decode, kind: ImagePngFailureKind::DecoderContract }),
        Some(n) => n,
    };
    let destination_length = match w.checked_mul(4) {
        None => return Err(ImageImportError::Png { stage: ImageImportStage::Decode, kind: ImagePngFailureKind::DecoderContract }),
        Some(n) => n,
    };
    if source.len() < source_length || destination.len() != destination_length {
        return Err(ImageImportError::Png { stage: ImageImportStage::Decode, kind: ImagePngFailureKind::DecoderContract });
    }
    proof {
        assert(channels * w == color_channels(color)->0 * w);
        assert(color is GrayscaleAlpha ==> channels * w == 2 * w) by (nonlinear_arith)
            requires color is GrayscaleAlpha ==> channels == 2;
        assert(color is Rgb ==> channels * w == 3 * w) by (nonlinear_arith)
            requires color is Rgb ==> channels == 3;
        assert(color is Grayscale ==> channels * w == w) by (nonlinear_arith)
            requires color is Grayscale ==> channels == 1;
        assert(color is Rgba ==> channels * w == 4 * w) by (nonlinear_arith)
            requires color is Rgba ==> channels == 4;
    }
    let mut p: usize = 0;
    while p < w
        invariant
            color is GrayscaleAlpha ==> source@.len() >= 2 * w,
            color is Rgb ==> source@.len() >= 3 * w,
            color is Grayscale ==> source@.len() >= w,
            color is Rgba ==> source@.len() >= 4 * w,
            w == width,
            channels as int == color_channels(color)->0,
            !(color is Indexed),
            source@.len() >= channels * w,
            destination@.len() == 4 * w,
            source_total == source@.len(),
            destination_total == destination@.len(),
            p <= w,
            forall|q: int| 0 <= q < p ==> #[trigger] destination@.subrange(4 * q, 4 * q + 4) == rgba_pixel(color, source@, q),
        decreases w - p,
    {
        let (a, b, c, d) = match color {
            PngColorType::Grayscale => (source[p], source[p], source[p], 255u8),
            PngColorType::GrayscaleAlpha => (source[2 * p], source[2 * p], source[2 * p], source[2 * p + 1]),
            PngColorType::Rgb => (source[3 * p], source[3 * p + 1], source[3 * p + 2], 255u8),
            _ => (source[4 * p], source[4 * p + 1], source[4 * p + 2], source[4 * p + 3]),
        };
        let ghost before = destination@;
        destination.set(4 * p, a);
        destination.set(4 * p + 1, b);
        destination.set(4 * p + 2, c);
        destination.set(4 * p + 3, d);
        proof {
            assert(destination@.subrange(4 * p as int, 4 * p + 4) =~= rgba_pixel(color, source@, p as int));
            assert forall|q: int| 0 <= q < p implies #[trigger] destination@.subrange(4 * q, 4 * q + 4) == rgba_pixel(color, source@, q) by {
                assert(destination@.subrange(4 * q, 4 * q + 4) =~= before.subrange(4 * q, 4 * q + 4));
            }
        }
        p = p + 1;
    }
    proof {
        assert forall|k: int| 0 <= k < destination@.len() implies destination@[k] == rgba_row(color, source@, width)[k] by {
            let q = k / 4;
            assert(0 <= q < w && 4 * q <= k < 4 * q + 4);
            assert(destination@.subrange(4 * q, 4 * q + 4)[k - 4 * q] == destination@[k]);
        }
        assert(destination@ =~= rgba_row(color, source@, width));
    }
    Ok(())
}

} // verus!
