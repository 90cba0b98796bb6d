//! Counters of render preparation and reload, and the bytes an image descriptor hashes.

use vstd::prelude::*;

use crate::image::asset::{ImageAsset, ImageColorSpace, ImageExtent, ImageFormat};
use crate::material::{le_u32, le_u64, push_le_u32, push_le_u64};

verus! {

/// Counters of one render preparation pass.
#[derive(Debug, Default, Clone, Copy, PartialEq, Eq, Structural)]
pub struct ImagePrepareStats {
    pub prepared: u32,
    pub removed: u32,
    pub skipped_missing_state: u32,
    pub skipped_not_loaded: u32,
    pub stale_results: u32,
}

/// The render preparation plugin; its systems run in the application.
#[derive(Debug, Default, Clone, Copy, PartialEq, Eq, Structural)]
pub struct ImagePreparePlugin;

/// Counters of image hot reload.
#[derive(Debug, Default, Clone, Copy, PartialEq, Eq, Structural)]
pub struct ImageReloadStats {
    pub spawned: u32,
    pub rejected: u32,
    pub applied: u32,
    pub failed: u32,
    pub stale: u32,
    pub cancelled: u32,
    pub removed: u32,
    pub pending: u32,
}

pub open spec fn format_tag(format: ImageFormat) -> u8 {
    match format {
        ImageFormat::Rgba8 => 1,
    }
}

pub open spec fn color_space_tag(color_space: ImageColorSpace) -> u8 {
    match color_space {
        ImageColorSpace::Srgb => 1,
        ImageColorSpace::Linear => 2,
    }
}

pub fn image_format_tag(format: ImageFormat) -> (r: u8)
    ensures
        r == format_tag(format),
{
    match format {
        ImageFormat::Rgba8 => 1,
    }
}

pub fn image_color_space_tag(color_space: ImageColorSpace) -> (r: u8)
    ensures
        r == color_space_tag(color_space),
{
    match color_space {
        ImageColorSpace::Srgb => 1,
        ImageColorSpace::Linear => 2,
    }
}

/// The bytes an image descriptor digest covers: the artifact digest, the source hash, the
/// extent as little-endian `u32`s, the format and color space tags, and the pixel byte length
/// as a little-endian `u64`.
pub open spec fn descriptor_encoding(
    artifact: Seq<u8>,
    source: Seq<u8>,
    extent: ImageExtent,
    format: ImageFormat,
    color_space: ImageColorSpace,
    pixel_len: u64,
) -> Seq<u8> {
    artifact + source + le_u32(extent.width) + le_u32(extent.height)
        + seq![format_tag(format), color_space_tag(color_space)] + le_u64(pixel_len)
}

fn push_all(out: &mut Vec<u8>, bytes: &[u8])
    ensures
        final(out)@ == old(out)@ + bytes@,
{
    let mut i: usize = 0;
    while i < bytes.len()
        invariant
            i <= bytes@.len(),
            out@ == old(out)@ + bytes@.take(i as int),
        decreases bytes@.len() - i,
    {
        out.push(bytes[i]);
        proof {
            assert(bytes@.take(i + 1) =~= bytes@.take(i as int).push(bytes@[i as int]));
        }
        i = i + 1;
    }
    proof {
        assert(bytes@.take(i as int) =~= bytes@);
    }
}

/// The bytes the descriptor digest of `image` covers: its artifact digest, its source hash,
/// its extent, format and color space, and its pixel byte length.
pub fn image_asset_descriptor_input(image: &ImageAsset) -> (r: Vec<u8>)
    ensures
        r@ == descriptor_encoding(
            image.spec_source().spec_artifact_digest(),
            image.spec_source().spec_source_hash(),
            image.spec_extent(),
            image.spec_format(),
            image.spec_color_space(),
            image.spec_pixels().len() as u64,
        ),
{
    let artifact = image.source().artifact_digest();
    let source = image.source().source_hash();
    image_descriptor_input(artifact.as_slice(), source.as_slice(), image.extent(), image.format(), image.color_space(), image.pixels().len() as u64)
}

/// The bytes an image descriptor digest covers.
pub fn image_descriptor_input(
    artifact: &[u8],
    source: &[u8],
    extent: ImageExtent,
    format: ImageFormat,
    color_space: ImageColorSpace,
    pixel_len: u64,
) -> (r: Vec<u8>)
    ensures
        r@ == descriptor_encoding(artifact@, source@, extent, format, color_space, pixel_len),
{
    let mut out: Vec<u8> = Vec::new();
    push_all(&mut out, artifact);
    push_all(&mut out, source);
    push_le_u32(&mut out, extent.width);
    push_le_u32(&mut out, extent.height);
    out.push(image_format_tag(format));
    out.push(image_color_space_tag(color_space));
    push_le_u64(&mut out, pixel_len);
    proof {
        assert(out@ =~= descriptor_encoding(artifact@, source@, extent, format, color_space, pixel_len));
    }
    out
}


/// What the asset store reports of an image's load state, as render preparation reads it.
#[derive(Debug, Clone, Copy, PartialEq, Eq, Structural)]
pub enum ObservedLoadState {
    /// The store keeps no state for the image.
    Missing,
    Loaded,
    Removed,
    /// Loading, or failed.
    Other,
}

/// Whether a prepared resource must be dropped: its image is gone from the store, or the
/// store has no state for it or reports it removed.
pub fn prepared_resource_is_removed(image_present: bool, state: ObservedLoadState) -> (r: bool)
    ensures
        r == (!image_present || state == ObservedLoadState::Missing || state == ObservedLoadState::Removed),
{
    !image_present || matches!(state, ObservedLoadState::Missing | ObservedLoadState::Removed)
}

/// The preparation step for one stored image.
#[derive(Debug, Clone, Copy, PartialEq, Eq, Structural)]
pub enum PrepareStep {
    SkipMissingState,
    SkipNotLoaded,
    Prepare,
}

/// An image without state, or not loaded, is skipped and counted; a loaded one is prepared.
pub fn prepare_step(state: ObservedLoadState, stats: &mut ImagePrepareStats) -> (r: PrepareStep)
    ensures
        state == ObservedLoadState::Missing ==> r == PrepareStep::SkipMissingState
            && *final(stats) == (ImagePrepareStats { skipped_missing_state: crate::image::reload::bump(old(stats).skipped_missing_state), ..*old(stats) }),
        state == ObservedLoadState::Loaded ==> r == PrepareStep::Prepare && *final(stats) == *old(stats),
        (state == ObservedLoadState::Removed || state == ObservedLoadState::Other) ==> r == PrepareStep::SkipNotLoaded
            && *final(stats) == (ImagePrepareStats { skipped_not_loaded: crate::image::reload::bump(old(stats).skipped_not_loaded), ..*old(stats) }),
{
    match state {
        ObservedLoadState::Missing => {
            stats.skipped_missing_state = stats.skipped_missing_state.saturating_add(1);
            PrepareStep::SkipMissingState
        },
        ObservedLoadState::Loaded => PrepareStep::Prepare,
        _ => {
            stats.skipped_not_loaded = stats.skipped_not_loaded.saturating_add(1);
            PrepareStep::SkipNotLoaded
        },
    }
}

/// Counts a prepared resource inserted (`applied`) or discarded as stale.
pub fn count_prepared(applied: bool, stats: &mut ImagePrepareStats)
    ensures
        applied ==> *final(stats) == (ImagePrepareStats { prepared: crate::image::reload::bump(old(stats).prepared), ..*old(stats) }),
        !applied ==> *final(stats) == (ImagePrepareStats { stale_results: crate::image::reload::bump(old(stats).stale_results), ..*old(stats) }),
{
    if applied {
        stats.prepared = stats.prepared.saturating_add(1);
    } else {
        stats.stale_results = stats.stale_results.saturating_add(1);
    }
}

/// Counts a prepared resource removed.
pub fn count_removed(stats: &mut ImagePrepareStats)
    ensures
        *final(stats) == (ImagePrepareStats { removed: crate::image::reload::bump(old(stats).removed), ..*old(stats) }),
{
    stats.removed = stats.removed.saturating_add(1);
}

} // verus!
